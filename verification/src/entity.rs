//! The actors of the game and the registry that holds them.
use crate::point::{IPoint, Point, Vec2};
use crate::rules::{
    HEROES_PER_PLAYER, VISIBLE_RADIUS_FROM_BASE, VISIBLE_RADIUS_FROM_HERO,
};
use vstd::prelude::*;

verus! {

/// How a monster threatens the bases, as seen by one side.
#[derive(Clone, Copy, PartialEq, Eq, Structural, Debug)]
pub enum MonsterThreatState {
    /// Heads for no base.
    NotThreat,
    /// Will reach the viewer's base.
    PlayerThreatInTheFuture,
    /// Is near the viewer's base.
    PlayerThreat,
    /// Will reach the other side's base.
    OpponentThreatInTheFuture,
    /// Is near the other side's base.
    OpponentThreat,
}

impl MonsterThreatState {
    /// The monster is near a base.
    pub open spec fn spec_near_base(self) -> bool {
        self == MonsterThreatState::PlayerThreat || self == MonsterThreatState::OpponentThreat
    }

    /// The monster is near the viewer's base or on its way to it.
    pub open spec fn spec_threat_player(self) -> bool {
        self == MonsterThreatState::PlayerThreat || self
            == MonsterThreatState::PlayerThreatInTheFuture
    }

    /// The monster is near the other side's base or on its way to it.
    pub open spec fn spec_threat_opponent(self) -> bool {
        self == MonsterThreatState::OpponentThreat || self
            == MonsterThreatState::OpponentThreatInTheFuture
    }

    /// Positive for the viewer's base, negative for the other, larger when near.
    pub open spec fn spec_threat_level(self) -> int {
        match self {
            MonsterThreatState::NotThreat => 0,
            MonsterThreatState::PlayerThreatInTheFuture => 1,
            MonsterThreatState::PlayerThreat => 2,
            MonsterThreatState::OpponentThreatInTheFuture => -1,
            MonsterThreatState::OpponentThreat => -2,
        }
    }

    /// The state that the two flags of the line protocol stand for: `threat_for`
    /// is 0 for no base, 1 for the viewer's, 2 for the other's; `near_base` is 1
    /// where the monster is near that base.
    pub open spec fn spec_to_threat_state(near_base: int, threat_for: int) -> MonsterThreatState {
        if threat_for == 0 {
            MonsterThreatState::NotThreat
        } else if threat_for == 1 {
            if near_base == 1 {
                MonsterThreatState::PlayerThreat
            } else {
                MonsterThreatState::PlayerThreatInTheFuture
            }
        } else {
            if near_base == 1 {
                MonsterThreatState::OpponentThreat
            } else {
                MonsterThreatState::OpponentThreatInTheFuture
            }
        }
    }

    /// Whether the monster is near a base.
    pub fn near_base(&self) -> (r: bool)
        ensures
            r == self.spec_near_base(),
    {
        *self == MonsterThreatState::PlayerThreat || *self == MonsterThreatState::OpponentThreat
    }

    /// Whether the monster is near the viewer's base or on its way to it.
    pub fn threat_player(&self) -> (r: bool)
        ensures
            r == self.spec_threat_player(),
    {
        *self == MonsterThreatState::PlayerThreat || *self
            == MonsterThreatState::PlayerThreatInTheFuture
    }

    /// Whether the monster is near the other side's base or on its way to it.
    pub fn threat_opponent(&self) -> (r: bool)
        ensures
            r == self.spec_threat_opponent(),
    {
        *self == MonsterThreatState::OpponentThreat || *self
            == MonsterThreatState::OpponentThreatInTheFuture
    }

    /// Positive for the viewer's base, negative for the other, larger when near.
    pub fn threat_level(&self) -> (r: i64)
        ensures
            r == self.spec_threat_level(),
    {
        match *self {
            MonsterThreatState::NotThreat => 0,
            MonsterThreatState::PlayerThreatInTheFuture => 1,
            MonsterThreatState::PlayerThreat => 2,
            MonsterThreatState::OpponentThreatInTheFuture => -1,
            MonsterThreatState::OpponentThreat => -2,
        }
    }

    /// The state that the two flags of the line protocol stand for.
    pub fn to_threat_state(near_base: i32, threat_for: i32) -> (r: MonsterThreatState)
        requires
            0 <= threat_for <= 2,
        ensures
            r == Self::spec_to_threat_state(near_base as int, threat_for as int),
    {
        if threat_for == 0 {
            MonsterThreatState::NotThreat
        } else if threat_for == 1 {
            if near_base == 1 {
                MonsterThreatState::PlayerThreat
            } else {
                MonsterThreatState::PlayerThreatInTheFuture
            }
        } else {
            if near_base == 1 {
                MonsterThreatState::OpponentThreat
            } else {
                MonsterThreatState::OpponentThreatInTheFuture
            }
        }
    }
}

/// The flags of the line protocol and the threat states correspond one to one.
pub proof fn lemma_threat_state_flags(s: MonsterThreatState)
    ensures
        ({
            let near: int = if s.spec_near_base() {
                1
            } else {
                0
            };
            let threat_for: int = if s.spec_threat_player() {
                1
            } else if s.spec_threat_opponent() {
                2
            } else {
                0
            };
            MonsterThreatState::spec_to_threat_state(near, threat_for) == s
        }),
{
}

/// What an actor is, and for a hero, whose.
#[derive(Debug, Clone, Copy, PartialEq, Eq, Structural)]
pub enum ComponentType {
    Monster,
    PlayerHero,
    OpponentHero,
}

impl ComponentType {
    /// The actor is a hero of either side.
    pub open spec fn spec_is_hero(self) -> bool {
        self == ComponentType::OpponentHero || self == ComponentType::PlayerHero
    }

    /// Whether the actor is a hero of either side.
    pub fn is_hero(&self) -> (r: bool)
        ensures
            r == self.spec_is_hero(),
    {
        *self == ComponentType::OpponentHero || *self == ComponentType::PlayerHero
    }

    /// The kind of a hero of `side`.
    pub open spec fn hero_of(side: int) -> ComponentType {
        if side == 0 {
            ComponentType::PlayerHero
        } else {
            ComponentType::OpponentHero
        }
    }
}

/// The physical state of one actor.
#[derive(Debug, Clone)]
pub struct Component {
    pub id: i32,
    pub position: IPoint,
    pub velocity: IPoint,
    /// Turns of protection that are left; 0 where unprotected.
    pub shield_life: i32,
    pub max_velocity: i32,
    /// The points that this turn's control forces the actor toward.
    pub control_move_target: Vec<IPoint>,
    /// The points queued by this turn's control casts, in force next turn.
    pub next_control_move_target: Vec<IPoint>,
    /// Whether a wind moved the actor this turn.
    pub pushed: bool,
    pub component_type: ComponentType,
}

/// What a `Component` stands for.
#[verifier::ext_equal]
pub struct ComponentView {
    pub id: int,
    pub position: Vec2,
    pub velocity: Vec2,
    pub shield_life: int,
    pub max_velocity: int,
    pub control: Seq<Point>,
    pub next_control: Seq<Point>,
    pub pushed: bool,
    pub kind: ComponentType,
}

impl View for Component {
    type V = ComponentView;

    open spec fn view(&self) -> ComponentView {
        ComponentView {
            id: self.id as int,
            position: self.position@,
            velocity: self.velocity@,
            shield_life: self.shield_life as int,
            max_velocity: self.max_velocity as int,
            control: self.control_move_target@,
            next_control: self.next_control_move_target@,
            pushed: self.pushed,
            kind: self.component_type,
        }
    }
}

impl ComponentView {
    /// An actor as it is created: at rest, unprotected, with nothing queued.
    pub open spec fn create(id: int, position: Vec2, max_velocity: int, kind: ComponentType)
        -> ComponentView {
        ComponentView {
            id,
            position,
            velocity: Vec2::zero(),
            shield_life: 0,
            max_velocity,
            control: Seq::empty(),
            next_control: Seq::empty(),
            pushed: false,
            kind,
        }
    }

    /// Where the actor is after one move at its velocity.
    pub open spec fn next_pos(self) -> Vec2 {
        self.position.plus(self.velocity)
    }

    /// A control cast of last turn is in force.
    pub open spec fn is_controlled(self) -> bool {
        self.control.len() > 0
    }
}

impl Component {
    /// An actor as it is created: at rest, unprotected, with nothing queued.
    pub fn new(id: i32, position: IPoint, max_velocity: i32, component_type: ComponentType) -> (r:
        Component)
        ensures
            r@ == ComponentView::create(id as int, position@, max_velocity as int, component_type),
    {
        Component {
            id,
            position,
            velocity: Point { x: 0, y: 0 },
            shield_life: 0,
            control_move_target: Vec::new(),
            next_control_move_target: Vec::new(),
            max_velocity,
            pushed: false,
            component_type,
        }
    }

    /// Where the actor is after one move at its velocity.
    pub fn next_pos(&self) -> (r: IPoint)
        requires
            self@.next_pos().fits(),
        ensures
            r@ == self@.next_pos(),
    {
        self.position.add(self.velocity)
    }

    /// Whether a control cast of last turn is in force.
    pub fn is_controlled(&self) -> (r: bool)
        ensures
            r == self@.is_controlled(),
    {
        self.control_move_target.len() > 0
    }
}

/// What a hero does in one turn. The `message` has no effect on the game.
#[derive(Clone, Debug)]
pub enum Action {
    Wait { message: String },
    Move { point: IPoint, message: String },
    Wind { point: IPoint, message: String },
    Shield { entity_id: i32, message: String },
    Control { entity_id: i32, point: IPoint, message: String },
}

/// What an `Action` stands for.
#[verifier::ext_equal]
pub enum ActionView {
    Wait { message: Seq<char> },
    Move { point: Point, message: Seq<char> },
    Wind { point: Point, message: Seq<char> },
    Shield { entity_id: int, message: Seq<char> },
    Control { entity_id: int, point: Point, message: Seq<char> },
}

impl View for Action {
    type V = ActionView;

    open spec fn view(&self) -> ActionView {
        match *self {
            Action::Wait { message } => ActionView::Wait { message: message@ },
            Action::Move { point, message } => ActionView::Move { point, message: message@ },
            Action::Wind { point, message } => ActionView::Wind { point, message: message@ },
            Action::Shield { entity_id, message } => ActionView::Shield {
                entity_id: entity_id as int,
                message: message@,
            },
            Action::Control { entity_id, point, message } => ActionView::Control {
                entity_id: entity_id as int,
                point,
                message: message@,
            },
        }
    }
}

/// The views of a list of actions.
pub open spec fn actions_view(v: Seq<Action>) -> Seq<ActionView> {
    Seq::new(v.len(), |i: int| v[i]@)
}

/// A hero: its physical state, its action of this turn, and its side.
#[derive(Debug, Clone)]
pub struct Hero {
    pub component: Component,
    /// The action recorded for the hero in the current turn.
    pub action: Action,
    pub is_player: bool,
}

/// What a `Hero` stands for.
#[verifier::ext_equal]
pub struct HeroView {
    pub component: ComponentView,
    pub action: ActionView,
    pub is_player: bool,
}

impl View for Hero {
    type V = HeroView;

    open spec fn view(&self) -> HeroView {
        HeroView { component: self.component@, action: self.action@, is_player: self.is_player }
    }
}

/// A monster: its physical state and its health.
#[derive(Debug, Clone)]
pub struct Monster {
    pub component: Component,
    /// At 0 or below the monster is dead.
    pub health: i32,
    /// A turn leaves this as it is; what a side is shown is told anew for
    /// each board.
    pub threat_state: MonsterThreatState,
}

/// What a `Monster` stands for.
#[verifier::ext_equal]
pub struct MonsterView {
    pub component: ComponentView,
    pub health: int,
    pub threat_state: MonsterThreatState,
}

impl View for Monster {
    type V = MonsterView;

    open spec fn view(&self) -> MonsterView {
        MonsterView {
            component: self.component@,
            health: self.health as int,
            threat_state: self.threat_state,
        }
    }
}

impl MonsterView {
    /// A monster that does not move by itself this turn: a wind moved it, or
    /// it is dead.
    pub open spec fn move_canceled(self) -> bool {
        self.component.pushed || self.health <= 0
    }
}

impl Monster {
    /// Health of a monster of the `spawn_count`-th wave: ten and half the
    /// number of the wave, rounded toward zero.
    pub fn max_health(spawn_count: i32) -> (r: i32)
        ensures
            r == crate::point::trunc_div(20 + spawn_count, 2),
            spawn_count >= 0 ==> r == 10 + spawn_count / 2,
    {
        let doubled: i64 = 20 + spawn_count as i64;
        if doubled >= 0 {
            (doubled / 2) as i32
        } else {
            (-((-doubled) / 2)) as i32
        }
    }

    /// Whether the monster does not move by itself this turn.
    pub fn move_canceled(&self) -> (r: bool)
        ensures
            r == self@.move_canceled(),
    {
        self.component.pushed || self.health <= 0
    }
}

/// One side of the game: its health and mana, its base, and its heroes.
#[derive(Debug)]
pub struct Player {
    /// What is left of the base; at 0 the game is lost.
    pub health: i32,
    /// What the side can spend on spells.
    pub mana: i32,
    pub base: IPoint,
    pub hero_list: Vec<Hero>,
    /// A count that a turn leaves as it is.
    pub wild_mana: i32,
}

/// What a `Player` stands for.
#[verifier::ext_equal]
pub struct PlayerView {
    pub health: int,
    pub mana: int,
    pub base: Vec2,
    pub heroes: Seq<HeroView>,
    pub wild_mana: int,
}

/// The views of a list of heroes.
pub open spec fn heroes_view(v: Seq<Hero>) -> Seq<HeroView> {
    Seq::new(v.len(), |i: int| v[i]@)
}

/// The views of a list of monsters.
pub open spec fn monsters_view(v: Seq<Monster>) -> Seq<MonsterView> {
    Seq::new(v.len(), |i: int| v[i]@)
}

impl View for Player {
    type V = PlayerView;

    open spec fn view(&self) -> PlayerView {
        PlayerView {
            health: self.health as int,
            mana: self.mana as int,
            base: self.base@,
            heroes: heroes_view(self.hero_list@),
            wild_mana: self.wild_mana as int,
        }
    }
}

impl PlayerView {
    /// Whether the side sees the point `p`: it lies near the base, or near one
    /// of the heroes.
    pub open spec fn visible(self, p: Vec2) -> bool {
        self.base.in_range(p, VISIBLE_RADIUS_FROM_BASE as int) || exists|i: int|
            0 <= i < self.heroes.len() && (#[trigger] self.heroes[i]).component.position.in_range(
                p,
                VISIBLE_RADIUS_FROM_HERO as int,
            )
    }
}

impl Player {
    /// A side at the start of a game: full health, no mana, no heroes yet.
    pub fn new(base: IPoint) -> (r: Player)
        ensures
            r@ == (PlayerView {
                health: 3,
                mana: 0,
                base: base@,
                heroes: Seq::empty(),
                wild_mana: 0,
            }),
    {
        let r = Player { health: 3, mana: 0, base, hero_list: Vec::new(), wild_mana: 0 };
        assert(r@.heroes =~= Seq::empty());
        r
    }

    /// Whether the side sees the point `p`.
    pub fn visible(&self, p: &IPoint) -> (r: bool)
        ensures
            r == self@.visible(p@),
    {
        if self.base.in_range(p, VISIBLE_RADIUS_FROM_BASE) {
            return true;
        }
        let n: usize = self.hero_list.len();
        let mut i: usize = 0;
        while i < n
            invariant
                i <= n,
                n == self.hero_list.len(),
                forall|j: int|
                    0 <= j < i ==> !(#[trigger] self@.heroes[j]).component.position.in_range(
                        p@,
                        VISIBLE_RADIUS_FROM_HERO as int,
                    ),
            decreases n - i,
        {
            if self.hero_list[i].component.position.in_range(p, VISIBLE_RADIUS_FROM_HERO) {
                assert(self@.heroes[i as int].component.position.in_range(
                    p@,
                    VISIBLE_RADIUS_FROM_HERO as int,
                ));
                return true;
            }
            i += 1;
        }
        false
    }
}

/// The two sides and the monsters that live.
#[derive(Debug)]
pub struct Components {
    pub player_list: [Player; 2],
    pub monster_list: Vec<Monster>,
}

/// What the registry stands for.
#[verifier::ext_equal]
pub struct World {
    pub players: Seq<PlayerView>,
    pub monsters: Seq<MonsterView>,
}

impl View for Components {
    type V = World;

    open spec fn view(&self) -> World {
        World {
            players: Seq::new(2, |p: int| self.player_list[p]@),
            monsters: monsters_view(self.monster_list@),
        }
    }
}

impl World {
    /// Two sides with the full number of heroes each.
    pub open spec fn shaped(self) -> bool {
        &&& self.players.len() == 2
        &&& self.players[0].heroes.len() == HEROES_PER_PLAYER
        &&& self.players[1].heroes.len() == HEROES_PER_PLAYER
    }

    /// Number of actors.
    pub open spec fn count(self) -> int {
        (self.players[0].heroes.len() + self.players[1].heroes.len() + self.monsters.len()) as int
    }

    /// The `i`-th actor in the fixed order: the heroes of side 0, the heroes of
    /// side 1, the monsters.
    pub open spec fn component(self, i: int) -> ComponentView {
        let n0 = self.players[0].heroes.len() as int;
        let n1 = self.players[1].heroes.len() as int;
        if i < n0 {
            self.players[0].heroes[i].component
        } else if i < n0 + n1 {
            self.players[1].heroes[i - n0].component
        } else {
            self.monsters[i - n0 - n1].component
        }
    }

    /// All actors in the fixed order.
    pub open spec fn registry(self) -> Seq<ComponentView> {
        Seq::new(self.count() as nat, |i: int| self.component(i))
    }

    /// The position in the fixed order of the first actor at or after `from`
    /// whose id is `id`; `count()` where there is none.
    pub open spec fn find_from(self, id: int, from: int) -> int
        decreases self.count() - from,
    {
        if from >= self.count() {
            self.count()
        } else if self.component(from).id == id {
            from
        } else {
            self.find_from(id, from + 1)
        }
    }

    /// The position of the first actor whose id is `id`; `count()` where there
    /// is none.
    pub open spec fn find(self, id: int) -> int {
        self.find_from(id, 0)
    }

    /// An actor has the id `id`.
    pub open spec fn has(self, id: int) -> bool {
        self.find(id) < self.count()
    }

    /// No two actors share an id.
    pub open spec fn unique_ids(self) -> bool {
        forall|i: int, j: int|
            0 <= i < j < self.count() ==> (#[trigger] self.component(i)).id != (
            #[trigger] self.component(j)).id
    }
}

/// `find_from` returns a position at or after `from`; where it is inside the
/// registry the actor there has the id, and no actor between has it.
pub proof fn lemma_find_from(w: World, id: int, from: int)
    requires
        0 <= from,
    ensures
        from <= w.find_from(id, from) || w.find_from(id, from) == w.count(),
        w.find_from(id, from) <= w.count() || from > w.count(),
        w.find_from(id, from) < w.count() ==> w.component(w.find_from(id, from)).id == id,
        forall|k: int| from <= k < w.find_from(id, from) ==> (#[trigger] w.component(k)).id != id,
    decreases w.count() - from,
{
    if from < w.count() && w.component(from).id != id {
        lemma_find_from(w, id, from + 1);
    }
}

impl Components {
    /// The place of the first side in the list of players.
    pub const PLAYER_ID: usize = 0;

    /// The place of the second side in the list of players.
    pub const OPPONENT_ID: usize = 1;

    /// The first side.
    pub fn player(&self) -> (r: &Player)
        ensures
            r@ == self@.players[0],
    {
        &self.player_list[0]
    }

    /// The second side.
    pub fn opponent(&self) -> (r: &Player)
        ensures
            r@ == self@.players[1],
    {
        &self.player_list[1]
    }

    /// Number of actors.
    pub fn component_len(&self) -> (r: usize)
        requires
            self@.count() <= usize::MAX,
        ensures
            r == self@.count(),
    {
        self.player().hero_list.len() + self.opponent().hero_list.len() + self.monster_list.len()
    }

    /// The `i`-th actor in the fixed order.
    pub fn component_at(&self, i: usize) -> (r: &Component)
        requires
            i < self@.count(),
        ensures
            r@ == self@.component(i as int),
    {
        let n0: usize = self.player_list[0].hero_list.len();
        let n1: usize = self.player_list[1].hero_list.len();
        if i < n0 {
            &self.player_list[0].hero_list[i].component
        } else if i - n0 < n1 {
            &self.player_list[1].hero_list[i - n0].component
        } else {
            &self.monster_list[i - n0 - n1].component
        }
    }

    /// All actors in the fixed order.
    pub fn component_iter(&self) -> (r: Vec<&Component>)
        requires
            self@.count() <= usize::MAX,
        ensures
            r@.len() == self@.count(),
            forall|i: int| 0 <= i < r@.len() ==> (#[trigger] r@[i])@ == self@.component(i),
    {
        let n: usize = self.component_len();
        let mut r: Vec<&Component> = Vec::new();
        let mut i: usize = 0;
        while i < n
            invariant
                i <= n,
                n == self@.count(),
                r@.len() == i,
                forall|j: int| 0 <= j < i ==> (#[trigger] r@[j])@ == self@.component(j),
            decreases n - i,
        {
            r.push(self.component_at(i));
            i += 1;
        }
        r
    }

    /// The position in the fixed order of the first actor whose id is `id`.
    pub fn locate(&self, id: i32) -> (r: Option<usize>)
        requires
            self@.count() <= usize::MAX,
        ensures
            match r {
                Some(i) => i == self@.find(id as int) && self@.has(id as int),
                None => !self@.has(id as int),
            },
    {
        let n: usize = self.component_len();
        let mut i: usize = 0;
        while i < n
            invariant
                i <= n,
                n == self@.count(),
                self@.find(id as int) == self@.find_from(id as int, i as int),
            decreases n - i,
        {
            if self.component_at(i).id == id {
                return Some(i);
            }
            i += 1;
        }
        None
    }

    /// The first actor whose id is `id`.
    pub fn component_of(&self, id: i32) -> (r: Option<&Component>)
        requires
            self@.count() <= usize::MAX,
        ensures
            match r {
                Some(c) => self@.has(id as int) && c@ == self@.component(self@.find(id as int)),
                None => !self@.has(id as int),
            },
    {
        match self.locate(id) {
            Some(i) => Some(self.component_at(i)),
            None => None,
        }
    }

    /// Whether an actor has the id `id`.
    pub fn find_component(&self, id: i32) -> (r: bool)
        requires
            self@.count() <= usize::MAX,
        ensures
            r == self@.has(id as int),
    {
        self.locate(id).is_some()
    }
}

} // verus!
