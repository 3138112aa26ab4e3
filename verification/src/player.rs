//! The player character: health, combat stats, experience and gold.

use vstd::prelude::*;
use vstd::string::*;
use crate::text::{dec_int, dec_nat, push_dec, push_int};

verus! {

/// The player character.
#[derive(Clone)]
pub struct Player {
    pub name: String,
    pub hp: i32,
    pub max_hp: i32,
    pub attack: i32,
    pub defense: i32,
    pub level: u32,
    pub exp: u32,
    pub exp_to_next: u32,
    pub gold: u32,
}

/// The stats gained by one level-up: returns the player after it.
pub open spec fn leveled(p: Player) -> Player {
    Player {
        exp: (p.exp - p.exp_to_next) as u32,
        level: (p.level + 1) as u32,
        exp_to_next: ((p.level + 1) * 100) as u32,
        max_hp: (p.max_hp + 20) as i32,
        hp: (p.max_hp + 20) as i32,
        attack: (p.attack + 3) as i32,
        defense: (p.defense + 2) as i32,
        ..p
    }
}

/// A level-up fully heals, whatever HP the player had: HP becomes the new
/// maximum, which is 20 above the old one; the level goes up by one,
/// attack by 3 and defense by 2, the experience needed for the level is
/// spent, and the next threshold is 100 per level.  Name and gold stay.
pub proof fn law_level_up_heals(p: Player)
    requires
        p.exp >= p.exp_to_next,
        level_up_fits(p),
    ensures
        leveled(p).hp == leveled(p).max_hp,
        leveled(p).max_hp == p.max_hp + 20,
        leveled(p).level == p.level + 1,
        leveled(p).attack == p.attack + 3,
        leveled(p).defense == p.defense + 2,
        leveled(p).exp == p.exp - p.exp_to_next,
        leveled(p).exp_to_next == leveled(p).level * 100,
        leveled(p).name == p.name,
        leveled(p).gold == p.gold,
        leveled(p).hp > p.hp || p.hp > p.max_hp,
{
}

/// The counters that a level-up increments stay in range.
pub open spec fn level_up_fits(p: Player) -> bool {
    &&& p.level + 1 <= u32::MAX
    &&& (p.level + 1) * 100 <= u32::MAX
    &&& p.max_hp + 20 <= i32::MAX
    &&& p.attack + 3 <= i32::MAX
    &&& p.defense + 2 <= i32::MAX
}

impl Player {
    /// A level-1 character with 100 HP, 10 attack, 5 defense and 50 gold.
    pub fn new(name: String) -> (r: Player)
        ensures
            r == (Player {
                name,
                hp: 100,
                max_hp: 100,
                attack: 10,
                defense: 5,
                level: 1,
                exp: 0,
                exp_to_next: 100,
                gold: 50,
            }),
    {
        Player {
            name,
            hp: 100,
            max_hp: 100,
            attack: 10,
            defense: 5,
            level: 1,
            exp: 0,
            exp_to_next: 100,
            gold: 50,
        }
    }

    /// Lose `amt` HP; HP never drops below zero.
    pub fn take_damage(&mut self, amt: i32)
        requires
            i32::MIN <= old(self).hp - amt <= i32::MAX,
        ensures
            final(self).hp as int == if old(self).hp - amt > 0 {
                old(self).hp - amt
            } else {
                0
            },
            *final(self) == (Player { hp: final(self).hp, ..*old(self) }),
            final(self).hp >= 0,
    {
        let h = self.hp - amt;
        self.hp = if h > 0 {
            h
        } else {
            0
        };
    }

    /// Gain `amt` HP, up to `max_hp`.
    pub fn heal(&mut self, amt: i32)
        requires
            i32::MIN <= old(self).hp + amt <= i32::MAX,
        ensures
            final(self).hp as int == if old(self).hp + amt < old(self).max_hp {
                old(self).hp + amt
            } else {
                old(self).max_hp as int
            },
            *final(self) == (Player { hp: final(self).hp, ..*old(self) }),
            final(self).hp <= old(self).max_hp,
    {
        let h = self.hp + amt;
        self.hp = if h < self.max_hp {
            h
        } else {
            self.max_hp
        };
    }

    /// Gain experience; returns true if the player leveled up (at most one
    /// level per call).
    pub fn gain_exp(&mut self, amt: u32) -> (up: bool)
        requires
            old(self).exp + amt <= u32::MAX,
            old(self).exp + amt >= old(self).exp_to_next ==> level_up_fits(*old(self)),
        ensures
            up == (old(self).exp + amt >= old(self).exp_to_next),
            up ==> *final(self) == leveled(Player { exp: (old(self).exp + amt) as u32, ..*old(self) }),
            !up ==> *final(self) == (Player { exp: (old(self).exp + amt) as u32, ..*old(self) }),
    {
        self.exp = self.exp + amt;
        if self.exp >= self.exp_to_next {
            self.level_up();
            true
        } else {
            false
        }
    }

    fn level_up(&mut self)
        requires
            old(self).exp >= old(self).exp_to_next,
            level_up_fits(*old(self)),
        ensures
            *final(self) == leveled(*old(self)),
    {
        self.exp = self.exp - self.exp_to_next;
        self.level = self.level + 1;
        self.exp_to_next = self.level * 100;
        self.max_hp = self.max_hp + 20;
        self.hp = self.max_hp;
        self.attack = self.attack + 3;
        self.defense = self.defense + 2;
    }

    /// The status lines: name and level; HP, attack and defense;
    /// experience and gold.
    pub open spec fn status_spec(&self) -> Seq<char> {
        "角色："@ + self.name@ + "  |  等级："@ + dec_nat(self.level as nat) + "\n生命值："@ + dec_int(
            self.hp as int,
        ) + "/"@ + dec_int(self.max_hp as int) + "  |  攻击："@ + dec_int(self.attack as int)
            + "  |  防御："@ + dec_int(self.defense as int) + "\n经验："@ + dec_nat(self.exp as nat) + "/"@
            + dec_nat(self.exp_to_next as nat) + "  |  金币："@ + dec_nat(self.gold as nat) + "g"@
    }

    /// The player's status as text (shown by `/proc/status`).
    pub fn status_display(&self) -> (r: String)
        ensures
            r@ == self.status_spec(),
    {
        let mut s = String::from_str("角色：");
        s.append(self.name.as_str());
        s.append("  |  等级：");
        push_dec(&mut s, self.level as u64);
        s.append("\n生命值：");
        push_int(&mut s, self.hp as i64);
        s.append("/");
        push_int(&mut s, self.max_hp as i64);
        s.append("  |  攻击：");
        push_int(&mut s, self.attack as i64);
        s.append("  |  防御：");
        push_int(&mut s, self.defense as i64);
        s.append("\n经验：");
        push_dec(&mut s, self.exp as u64);
        s.append("/");
        push_dec(&mut s, self.exp_to_next as u64);
        s.append("  |  金币：");
        push_dec(&mut s, self.gold as u64);
        s.append("g");
        s
    }

    /// Whether the player still has HP left.
    pub fn is_alive(&self) -> (r: bool)
        ensures
            r == (self.hp > 0),
    {
        self.hp > 0
    }
}

} // verus!
