//! The menu / level-select / pause state machine around one session, as
//! pure decision logic: every handler maps an input event to a
//! transition; the embedding front end performs the transition, spawns
//! and tears down the widgets, and feeds events back in.

use vstd::prelude::*;

use crate::rect::{anchor_dir, anchor_to_tuple, Anchor};

verus! {

/// The outcome a paused session carries: won, lost, or still going.
#[derive(Clone, Copy, Debug, PartialEq, Eq, Structural)]
pub enum GameStatus {
    Win,
    Lose,
    Ongoing,
}

impl Default for GameStatus {
    /// A fresh session has no outcome yet.
    fn default() -> (r: Self)
        ensures
            r == GameStatus::Ongoing,
    {
        GameStatus::Ongoing
    }
}

/// The target state a transition constructs.
#[derive(Clone, Copy, Debug, PartialEq, Eq, Structural)]
pub enum StateKind {
    Init,
    Menu,
    LevelSelect,
    Game { level: u32 },
    Pause { level: u32, status: GameStatus, score: i32 },
}

/// A state-machine transition over the state stack.
#[derive(Clone, Copy, Debug, PartialEq, Eq, Structural)]
pub enum Trans {
    Stay,
    Quit,
    Pop,
    Push(StateKind),
    Replace(StateKind),
    Switch(StateKind),
}

/// An input event handed to a state handler: a mouse click in level
/// units relative to the screen centre, the escape key, or anything
/// else.
#[derive(Clone, Copy, Debug, PartialEq, Eq, Structural)]
pub enum StateEvent {
    Click(i32, i32),
    Escape,
    Other,
}

/// A clickable button: centre position and size, in level units.
#[derive(Clone, Copy, Debug, PartialEq, Eq, Structural)]
pub struct Button {
    pub x: i32,
    pub y: i32,
    pub w: i32,
    pub h: i32,
}

/// The reference point of the button named by `anchor`, in doubled level
/// units (the button's stored position is its centre).
pub open spec fn button_point2(b: Button, anchor: Anchor) -> (int, int) {
    (2 * b.x + anchor_dir(anchor).0 * b.w, 2 * b.y + anchor_dir(anchor).1 * b.h)
}

/// The click at `(px, py)` lands strictly inside the button.
pub open spec fn in_range_spec(b: Button, px: i32, py: i32) -> bool {
    &&& 2 * px > 2 * b.x - b.w
    &&& 2 * px < 2 * b.x + b.w
    &&& 2 * py > 2 * b.y - b.h
    &&& 2 * py < 2 * b.y + b.h
}

impl Button {
    pub fn new(x: i32, y: i32, w: i32, h: i32) -> (b: Button)
        ensures
            b == (Button { x, y, w, h }),
    {
        Button { x, y, w, h }
    }

    /// The reference point of the button named by `anchor`, in doubled
    /// level units so that half sizes stay exact.
    pub fn get_pos(&self, anchor: Anchor) -> (p: (i64, i64))
        ensures
            p.0 == button_point2(*self, anchor).0,
            p.1 == button_point2(*self, anchor).1,
    {
        let d = anchor_to_tuple(anchor);
        let dx = d.0 as i64;
        let dy = d.1 as i64;
        let w = self.w as i64;
        let h = self.h as i64;
        assert(-0x1_0000_0000 <= dx * w <= 0x1_0000_0000) by (nonlinear_arith)
            requires
                -1 <= dx <= 1,
                -0x8000_0000 <= w <= 0x8000_0000,
        ;
        assert(-0x1_0000_0000 <= dy * h <= 0x1_0000_0000) by (nonlinear_arith)
            requires
                -1 <= dy <= 1,
                -0x8000_0000 <= h <= 0x8000_0000,
        ;
        let x = 2 * (self.x as i64) + dx * w;
        let y = 2 * (self.y as i64) + dy * h;
        (x, y)
    }

    /// Whether the click lands strictly inside the button.
    pub fn in_range(&self, x: i32, y: i32) -> (r: bool)
        ensures
            r == in_range_spec(*self, x, y),
    {
        let pmin = self.get_pos(Anchor::BottomLeft);
        let pmax = self.get_pos(Anchor::TopRight);
        proof {
            assert(button_point2(*self, Anchor::BottomLeft).1 == 2 * self.y + (-1) * self.h);
            assert(button_point2(*self, Anchor::TopRight).1 == 2 * self.y + 1 * self.h);
        }
        let px = 2 * (x as i64);
        let py = 2 * (y as i64);
        px > pmin.0 && px < pmax.0 && py > pmin.1 && py < pmax.1
    }
}

/// The one-shot boot state: registers the world and immediately hands
/// over to the menu.
#[derive(Default)]
pub struct InitState;

impl InitState {
    /// The boot state advances to the menu unconditionally.
    pub fn update(&self) -> (t: Trans)
        ensures
            t == Trans::Replace(StateKind::Menu),
    {
        Trans::Replace(StateKind::Menu)
    }
}

/// The main menu: a New Game button and an Exit button.
pub struct MenuState {
    pub b_level: Button,
    pub b_exit: Button,
}

/// What the menu does with an event: New Game opens the level select,
/// Exit quits, anything else is ignored.
pub open spec fn menu_trans(s: MenuState, e: StateEvent) -> Trans {
    match e {
        StateEvent::Click(x, y) => {
            if in_range_spec(s.b_level, x, y) {
                Trans::Replace(StateKind::LevelSelect)
            } else if in_range_spec(s.b_exit, x, y) {
                Trans::Quit
            } else {
                Trans::Stay
            }
        },
        _ => Trans::Stay,
    }
}

impl MenuState {
    pub fn new() -> (s: MenuState)
        ensures
            s.b_level == (Button { x: 0, y: 0, w: 300, h: 60 }),
            s.b_exit == (Button { x: 0, y: -120i32, w: 300, h: 60 }),
    {
        MenuState {
            b_level: Button::new(0, 0, 300, 60),
            b_exit: Button::new(0, -120, 300, 60),
        }
    }

    /// Decide the transition for one event, as [`menu_trans`] describes.
    pub fn handle_event(&self, event: &StateEvent) -> (t: Trans)
        ensures
            t == menu_trans(*self, *event),
    {
        match event {
            StateEvent::Click(x, y) => {
                if self.b_level.in_range(*x, *y) {
                    Trans::Replace(StateKind::LevelSelect)
                } else if self.b_exit.in_range(*x, *y) {
                    Trans::Quit
                } else {
                    Trans::Stay
                }
            },
            _ => Trans::Stay,
        }
    }
}

/// The grid position of the button for one level (levels are numbered
/// from 1): four columns, then the next row below.
pub open spec fn level_button(level: int) -> Button {
    Button {
        x: (((level - 1) % 4) * 200 - 300) as i32,
        y: (80 - ((level - 1) / 4) * 160) as i32,
        w: 70,
        h: 100,
    }
}

/// The level-select screen: a Back button and one button per level.
pub struct LevelState {
    pub num_levels: usize,
    pub b_menu: Button,
    pub b_games: Vec<Button>,
}

/// `l` is the lowest-numbered level whose button the click hits.
pub open spec fn is_first_level_hit(s: LevelState, x: i32, y: i32, l: int) -> bool {
    &&& 1 <= l <= s.num_levels
    &&& in_range_spec(s.b_games@[l - 1], x, y)
    &&& forall|k: int| 1 <= k < l ==> !in_range_spec(#[trigger] s.b_games@[k - 1], x, y)
}

/// Some level button is hit by the click.
pub open spec fn some_level_hit(s: LevelState, x: i32, y: i32) -> bool {
    exists|l: int| 1 <= l <= s.num_levels && in_range_spec(#[trigger] s.b_games@[l - 1], x, y)
}

impl LevelState {
    /// Build the level-select screen with its button grid.
    pub fn new(num_levels: usize) -> (s: LevelState)
        requires
            num_levels <= 10000,
        ensures
            s.num_levels == num_levels,
            s.b_menu == (Button { x: 0, y: -200i32, w: 300, h: 60 }),
            s.b_games@.len() == num_levels,
            forall|l: int| 1 <= l <= num_levels ==> s.b_games@[l - 1] == level_button(l),
    {
        let mut b_games: Vec<Button> = Vec::new();
        let mut level: usize = 1;
        while level <= num_levels
            invariant
                num_levels <= 10000,
                1 <= level <= num_levels + 1,
                b_games@.len() == level - 1,
                forall|l: int| 1 <= l < level ==> b_games@[l - 1] == level_button(l),
            decreases num_levels + 1 - level,
        {
            let col = ((level - 1) % 4) as i32;
            let row = ((level - 1) / 4) as i32;
            b_games.push(Button::new(col * 200 - 300, 80 - row * 160, 70, 100));
            level = level + 1;
        }
        LevelState { num_levels, b_menu: Button::new(0, -200, 300, 60), b_games }
    }

    /// Decide the transition for one event: Back returns to the menu;
    /// the lowest-numbered hit level button starts that level; anything
    /// else is ignored.
    pub fn handle_event(&self, event: &StateEvent) -> (t: Trans)
        requires
            self.num_levels <= 10000,
            self.b_games@.len() == self.num_levels,
        ensures
            ({
                match *event {
                    StateEvent::Click(x, y) => {
                        if in_range_spec(self.b_menu, x, y) {
                            t == Trans::Replace(StateKind::Menu)
                        } else if some_level_hit(*self, x, y) {
                            forall|l: int|
                                is_first_level_hit(*self, x, y, l) ==> t == Trans::Switch(
                                    StateKind::Game { level: l as u32 },
                                )
                        } else {
                            t == Trans::Stay
                        }
                    },
                    _ => t == Trans::Stay,
                }
            }),
    {
        match event {
            StateEvent::Click(x, y) => {
                if self.b_menu.in_range(*x, *y) {
                    return Trans::Replace(StateKind::Menu);
                }
                let mut level: usize = 1;
                while level <= self.num_levels
                    invariant
                        self.num_levels <= 10000,
                        self.b_games@.len() == self.num_levels,
                        *event == StateEvent::Click(*x, *y),
                        !in_range_spec(self.b_menu, *x, *y),
                        1 <= level <= self.num_levels + 1,
                        forall|k: int| 1 <= k < level ==> !in_range_spec(
                            #[trigger] self.b_games@[k - 1],
                            *x,
                            *y,
                        ),
                    decreases self.num_levels + 1 - level,
                {
                    if self.b_games[level - 1].in_range(*x, *y) {
                        proof {
                            assert(is_first_level_hit(*self, *x, *y, level as int));
                            assert(some_level_hit(*self, *x, *y));
                            assert forall|l: int|
                                is_first_level_hit(
                                    *self,
                                    *x,
                                    *y,
                                    l,
                                ) implies Trans::Switch(StateKind::Game { level: level as u32 })
                                == Trans::Switch(StateKind::Game { level: l as u32 }) by {
                                if l < level as int {
                                    assert(in_range_spec(self.b_games@[l - 1], *x, *y));
                                } else if l > level as int {
                                    assert(!in_range_spec(self.b_games@[level as int - 1], *x, *y));
                                }
                                assert(l == level as int);
                            }
                        }
                        return Trans::Switch(StateKind::Game { level: level as u32 });
                    }
                    level = level + 1;
                }
                proof {
                    assert(!some_level_hit(*self, *x, *y));
                }
                Trans::Stay
            },
            _ => Trans::Stay,
        }
    }
}

/// The pause overlay of a running or finished session: a Resume/Replay
/// button and an Exit-to-menu button.
pub struct PauseState {
    pub level: u32,
    pub status: GameStatus,
    pub score: i32,
    pub b_game: Button,
    pub b_menu: Button,
}

/// What the pause overlay does with an event.  Escape pops back to the
/// paused session only while the session has no outcome; the game button
/// resumes (no outcome) or replays the level (won or lost); the menu
/// button leaves for the menu.
pub open spec fn pause_trans(s: PauseState, e: StateEvent) -> Trans {
    match e {
        StateEvent::Escape => {
            if s.status == GameStatus::Ongoing {
                Trans::Pop
            } else {
                Trans::Stay
            }
        },
        StateEvent::Click(x, y) => {
            if in_range_spec(s.b_game, x, y) {
                if s.status == GameStatus::Ongoing {
                    Trans::Pop
                } else {
                    Trans::Replace(StateKind::Game { level: s.level })
                }
            } else if in_range_spec(s.b_menu, x, y) {
                Trans::Replace(StateKind::Menu)
            } else {
                Trans::Stay
            }
        },
        StateEvent::Other => Trans::Stay,
    }
}

impl PauseState {
    pub fn new(level: u32, status: GameStatus, score: i32) -> (s: PauseState)
        ensures
            s.level == level,
            s.status == status,
            s.score == score,
            s.b_game == (Button { x: 0, y: -20i32, w: 260, h: 50 }),
            s.b_menu == (Button { x: 0, y: -120i32, w: 260, h: 50 }),
    {
        PauseState {
            level,
            status,
            score,
            b_game: Button::new(0, -20, 260, 50),
            b_menu: Button::new(0, -120, 260, 50),
        }
    }

    /// Decide the transition for one event, as [`pause_trans`]
    /// describes.
    pub fn handle_event(&self, event: &StateEvent) -> (t: Trans)
        ensures
            t == pause_trans(*self, *event),
    {
        match event {
            StateEvent::Escape => {
                if matches!(self.status, GameStatus::Ongoing) {
                    Trans::Pop
                } else {
                    Trans::Stay
                }
            },
            StateEvent::Click(x, y) => {
                if self.b_game.in_range(*x, *y) {
                    if matches!(self.status, GameStatus::Ongoing) {
                        Trans::Pop
                    } else {
                        Trans::Replace(StateKind::Game { level: self.level })
                    }
                } else if self.b_menu.in_range(*x, *y) {
                    Trans::Replace(StateKind::Menu)
                } else {
                    Trans::Stay
                }
            },
            StateEvent::Other => Trans::Stay,
        }
    }
}

/// Apply a transition to the state stack.  `Quit` empties the stack;
/// `Replace` and `Switch` exchange the top state; a `Pop` on an empty
/// stack is ignored.
pub fn apply_trans(stack: &mut Vec<StateKind>, t: Trans)
    ensures
        t == Trans::Stay ==> final(stack)@ == old(stack)@,
        t == Trans::Quit ==> final(stack)@.len() == 0,
        t == Trans::Pop ==> final(stack)@ == (if old(stack)@.len() > 0 {
            old(stack)@.drop_last()
        } else {
            old(stack)@
        }),
        t matches Trans::Push(s) ==> final(stack)@ == old(stack)@.push(s),
        t matches Trans::Replace(s) ==> final(stack)@ == (if old(stack)@.len() > 0 {
            old(stack)@.drop_last().push(s)
        } else {
            old(stack)@.push(s)
        }),
        t matches Trans::Switch(s) ==> final(stack)@ == (if old(stack)@.len() > 0 {
            old(stack)@.drop_last().push(s)
        } else {
            old(stack)@.push(s)
        }),
{
    match t {
        Trans::Stay => {},
        Trans::Quit => {
            stack.truncate(0);
            proof {
                assert(stack@ =~= Seq::<StateKind>::empty());
            }
        },
        Trans::Pop => {
            if stack.len() > 0 {
                stack.pop();
            }
        },
        Trans::Push(s) => {
            stack.push(s);
        },
        Trans::Replace(s) => {
            if stack.len() > 0 {
                stack.pop();
            }
            stack.push(s);
        },
        Trans::Switch(s) => {
            if stack.len() > 0 {
                stack.pop();
            }
            stack.push(s);
        },
    }
}

} // verus!
