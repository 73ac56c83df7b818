//! What one side is shown of the game in a turn.
use crate::entity::MonsterThreatState;
use crate::point::{Point as IPoint, Vec2};
use crate::rules::{center, center_point};
use vstd::prelude::*;

verus! {

/// The points of a board are integer points.
pub type Point = IPoint;

/// A hero as one side is shown it.
#[derive(Debug, Clone, Copy)]
pub struct Hero {
    pub id: i32,
    pub pos: Point,
    pub shield_life: i32,
    pub is_controlled: bool,
}

/// What a shown hero stands for.
pub struct HeroSight {
    pub id: int,
    pub pos: Vec2,
    pub shield_life: int,
    pub is_controlled: bool,
}

impl View for Hero {
    type V = HeroSight;

    open spec fn view(&self) -> HeroSight {
        HeroSight {
            id: self.id as int,
            pos: self.pos@,
            shield_life: self.shield_life as int,
            is_controlled: self.is_controlled,
        }
    }
}

impl HeroSight {
    /// The hero as the other side counts its coordinates.
    pub open spec fn mirrored(self) -> HeroSight {
        HeroSight { pos: self.pos.reflect(center()), ..self }
    }
}

/// A monster as one side is shown it.
#[derive(Debug, Clone, Copy)]
pub struct Monster {
    pub id: i32,
    pub pos: Point,
    pub shield_life: i32,
    pub is_controlled: bool,
    pub health: i32,
    pub v: Point,
    pub threat_state: MonsterThreatState,
}

/// What a shown monster stands for.
pub struct MonsterSight {
    pub id: int,
    pub pos: Vec2,
    pub shield_life: int,
    pub is_controlled: bool,
    pub health: int,
    pub v: Vec2,
    pub threat_state: MonsterThreatState,
}

impl View for Monster {
    type V = MonsterSight;

    open spec fn view(&self) -> MonsterSight {
        MonsterSight {
            id: self.id as int,
            pos: self.pos@,
            shield_life: self.shield_life as int,
            is_controlled: self.is_controlled,
            health: self.health as int,
            v: self.v@,
            threat_state: self.threat_state,
        }
    }
}

impl MonsterSight {
    /// The monster as the other side counts its coordinates.
    pub open spec fn mirrored(self) -> MonsterSight {
        MonsterSight { pos: self.pos.reflect(center()), v: self.v.neg(), ..self }
    }
}

impl Monster {
    /// Where the monster is after one move at its velocity.
    pub fn next_pos(&self) -> (r: Point)
        requires
            self@.pos.plus(self@.v).fits(),
        ensures
            r@ == self@.pos.plus(self@.v),
    {
        self.pos.add(self.v)
    }
}

/// A side as one side is shown it.
#[derive(Debug)]
pub struct Player {
    pub health: i32,
    pub mana: i32,
    pub base: Point,
    pub hero_list: Vec<Hero>,
}

/// What a shown side stands for.
#[verifier::ext_equal]
pub struct SideSight {
    pub health: int,
    pub mana: int,
    pub base: Vec2,
    pub heroes: Seq<HeroSight>,
}

/// The views of a list of heroes.
pub open spec fn heroes_sight(v: Seq<Hero>) -> Seq<HeroSight> {
    Seq::new(v.len(), |i: int| v[i]@)
}

/// The views of a list of monsters.
pub open spec fn monsters_sight(v: Seq<Monster>) -> Seq<MonsterSight> {
    Seq::new(v.len(), |i: int| v[i]@)
}

impl View for Player {
    type V = SideSight;

    open spec fn view(&self) -> SideSight {
        SideSight {
            health: self.health as int,
            mana: self.mana as int,
            base: self.base@,
            heroes: heroes_sight(self.hero_list@),
        }
    }
}

impl SideSight {
    /// The side as the other side counts its coordinates.
    pub open spec fn mirrored(self) -> SideSight {
        SideSight {
            base: self.base.reflect(center()),
            heroes: Seq::new(self.heroes.len(), |i: int| self.heroes[i].mirrored()),
            ..self
        }
    }

    /// Every point of the side has an image under the reflection through the
    /// center that fits the machine.
    pub open spec fn mirrors(self) -> bool {
        &&& self.base.reflect(center()).fits()
        &&& forall|i: int|
            0 <= i < self.heroes.len() ==> (#[trigger] self.heroes[i]).pos.reflect(center()).fits()
    }
}

impl Player {
    /// A side of which nothing is known yet.
    pub fn new() -> (r: Player)
        ensures
            r@ == (SideSight { health: 0, mana: 0, base: Vec2::zero(), heroes: Seq::empty() }),
            r.hero_list@.len() == 0,
    {
        let r = Player { health: 0, mana: 0, hero_list: Vec::new(), base: Point::new() };
        assert(r@.heroes =~= Seq::empty());
        r
    }

    /// Turns the side's points into the coordinates of the other side.
    pub fn point_symmetry(&mut self)
        requires
            old(self)@.mirrors(),
        ensures
            final(self)@ == old(self)@.mirrored(),
    {
        let middle: Point = center_point();
        self.base = self.base.point_symmetry(&middle);
        let n: usize = self.hero_list.len();
        let mut i: usize = 0;
        while i < n
            invariant
                i <= n,
                n == self.hero_list@.len(),
                n == old(self).hero_list@.len(),
                middle@ == center(),
                self.health == old(self).health,
                self.mana == old(self).mana,
                self.base@ == old(self)@.base.reflect(center()),
                old(self)@.mirrors(),
                forall|j: int|
                    0 <= j < i ==> (#[trigger] self.hero_list@[j])@ == old(
                        self,
                    ).hero_list@[j]@.mirrored(),
                forall|j: int| i <= j < n ==> self.hero_list@[j] == old(self).hero_list@[j],
            decreases n - i,
        {
            assert(old(self)@.heroes[i as int] == old(self).hero_list@[i as int]@);
            self.hero_list[i].pos = self.hero_list[i].pos.point_symmetry(&middle);
            i += 1;
        }
        assert(self@ =~~= old(self)@.mirrored());
    }
}

/// What one side is shown of the game in a turn: itself, what it sees of the
/// other side, and the monsters that it sees.
#[derive(Debug)]
pub struct Board {
    pub player: Player,
    pub opponent: Player,
    pub monster_list: Vec<Monster>,
    pub turn: usize,
}

/// What a `Board` stands for.
#[verifier::ext_equal]
pub struct BoardView {
    pub player: SideSight,
    pub opponent: SideSight,
    pub monsters: Seq<MonsterSight>,
    pub turn: nat,
}

impl View for Board {
    type V = BoardView;

    open spec fn view(&self) -> BoardView {
        BoardView {
            player: self.player@,
            opponent: self.opponent@,
            monsters: monsters_sight(self.monster_list@),
            turn: self.turn as nat,
        }
    }
}

impl BoardView {
    /// The board as the other side counts its coordinates: every point is
    /// reflected through the center and every velocity is turned round.
    pub open spec fn mirrored(self) -> BoardView {
        BoardView {
            player: self.player.mirrored(),
            opponent: self.opponent.mirrored(),
            monsters: Seq::new(self.monsters.len(), |i: int| self.monsters[i].mirrored()),
            turn: self.turn,
        }
    }

    /// Every point of the board has an image under the reflection through the
    /// center that fits the machine, and so has the opposite of every velocity.
    pub open spec fn mirrors(self) -> bool {
        &&& self.player.mirrors()
        &&& self.opponent.mirrors()
        &&& forall|i: int|
            0 <= i < self.monsters.len() ==> (#[trigger] self.monsters[i]).pos.reflect(
                center(),
            ).fits() && self.monsters[i].v.neg().fits()
    }

    /// The place in the list of the first monster at or after `from` whose id
    /// is `id`; the length of the list where there is none.
    pub open spec fn find_from(self, id: int, from: int) -> int
        decreases self.monsters.len() - from,
    {
        if from >= self.monsters.len() {
            self.monsters.len() as int
        } else if self.monsters[from].id == id {
            from
        } else {
            self.find_from(id, from + 1)
        }
    }
}

impl Board {
    /// The first monster of the list whose id is `monster_id`.
    pub fn monster(&self, monster_id: i32) -> (r: Option<&Monster>)
        ensures
            match r {
                Some(m) => {
                    let i = self@.find_from(monster_id as int, 0);
                    i < self@.monsters.len() && m@ == self@.monsters[i] && *m
                        == self.monster_list@[i]
                },
                None => self@.find_from(monster_id as int, 0) == self@.monsters.len(),
            },
    {
        let n: usize = self.monster_list.len();
        let mut i: usize = 0;
        while i < n
            invariant
                i <= n,
                n == self.monster_list@.len(),
                self@.find_from(monster_id as int, 0) == self@.find_from(monster_id as int, i as int),
            decreases n - i,
        {
            if self.monster_list[i].id == monster_id {
                return Some(&self.monster_list[i]);
            }
            i += 1;
        }
        None
    }

    /// Turns the board into the coordinates of the other side.
    pub fn point_symmetry(&mut self)
        requires
            old(self)@.mirrors(),
        ensures
            final(self)@ == old(self)@.mirrored(),
    {
        let middle: Point = center_point();
        self.player.point_symmetry();
        self.opponent.point_symmetry();
        let n: usize = self.monster_list.len();
        let mut i: usize = 0;
        while i < n
            invariant
                i <= n,
                n == self.monster_list@.len(),
                n == old(self).monster_list@.len(),
                middle@ == center(),
                self.turn == old(self).turn,
                self.player@ == old(self)@.player.mirrored(),
                self.opponent@ == old(self)@.opponent.mirrored(),
                old(self)@.mirrors(),
                forall|j: int|
                    0 <= j < i ==> (#[trigger] self.monster_list@[j])@ == old(
                        self,
                    ).monster_list@[j]@.mirrored(),
                forall|j: int| i <= j < n ==> self.monster_list@[j] == old(self).monster_list@[j],
            decreases n - i,
        {
            assert(old(self)@.monsters[i as int] == old(self).monster_list@[i as int]@);
            self.monster_list[i].pos = self.monster_list[i].pos.point_symmetry(&middle);
            self.monster_list[i].v = self.monster_list[i].v.flip();
            i += 1;
        }
        assert(self@ =~~= old(self)@.mirrored());
    }
}

/// Turning a board into the coordinates of the other side and back gives the
/// board again.
pub proof fn lemma_mirrored_twice(b: BoardView)
    ensures
        b.mirrored().mirrored() == b,
{
    assert(b.mirrored().mirrored() =~~= b);
}

} // verus!
