//! The stand-alone farm: four plots, three animals and a fixed list of crop
//! types, with readiness checked against Unix timestamps.
//!
//! Each time-dependent operation has an `_at` form that takes the current
//! time as an argument and is specified exactly in terms of it.

use vstd::prelude::*;
use vstd::string::*;
use crate::world::current_unix_secs;

verus! {

/// A crop growing in a plot.
#[derive(Clone)]
pub struct Crop {
    pub name: String,
    pub grow_time_secs: u64,
    pub yield_gold: u32,
    pub planted_at_secs: Option<u64>,
}

/// A farm animal.
#[derive(Clone)]
pub struct Animal {
    pub name: String,
    pub breed_time_secs: u64,
    pub yield_gold: u32,
    pub breeding: bool,
    pub breed_started_at_secs: Option<u64>,
}

/// The farm: crop plots and animals.
pub struct Farm {
    pub plots: Vec<Option<Crop>>,
    pub animals: Vec<Animal>,
}

impl Crop {
    /// Ready at time `now`: planted, and the grow time has elapsed.
    pub open spec fn ready_at(&self, now: int) -> bool {
        match self.planted_at_secs {
            Some(t) => now >= t + self.grow_time_secs,
            None => false,
        }
    }

    /// Whether the crop is ready at time `now`.
    pub fn is_ready_at(&self, now: u64) -> (r: bool)
        ensures
            r == self.ready_at(now as int),
    {
        match self.planted_at_secs {
            Some(t) => now >= t && now - t >= self.grow_time_secs,
            None => false,
        }
    }

    /// Whether the grow time has elapsed since planting, by the clock.
    pub fn is_ready(&self) -> (r: bool)
        ensures
            exists|now: u64| r == self.ready_at(now as int),
            self.planted_at_secs.is_none() ==> !r,
    {
        let now = current_unix_secs();
        self.is_ready_at(now)
    }
}

impl Animal {
    /// Ready at time `now`: breeding, and the breed time has elapsed.
    pub open spec fn ready_at(&self, now: int) -> bool {
        self.breeding && match self.breed_started_at_secs {
            Some(t) => now >= t + self.breed_time_secs,
            None => false,
        }
    }

    /// Whether the animal is ready at time `now`.
    pub fn is_ready_at(&self, now: u64) -> (r: bool)
        ensures
            r == self.ready_at(now as int),
    {
        self.breeding && match self.breed_started_at_secs {
            Some(t) => now >= t && now - t >= self.breed_time_secs,
            None => false,
        }
    }

    /// Whether the breed time has elapsed since breeding began, by the clock.
    pub fn is_ready(&self) -> (r: bool)
        ensures
            exists|now: u64| r == self.ready_at(now as int),
            !self.breeding ==> !r,
    {
        let now = current_unix_secs();
        self.is_ready_at(now)
    }
}

/// Plot `idx` holds a crop that is ready at time `now`.
pub open spec fn plot_ready(plots: Seq<Option<Crop>>, idx: int, now: int) -> bool {
    0 <= idx < plots.len() && match plots[idx] {
        Some(c) => c.ready_at(now),
        None => false,
    }
}

/// A crop of the type `(name, grow time, yield)` planted at `now`.
pub open spec fn planted(t: (Seq<char>, u64, u32), now: u64, c: Crop) -> bool {
    c.name@ == t.0 && c.grow_time_secs == t.1 && c.yield_gold == t.2 && c.planted_at_secs == Some(now)
}

/// The crop types of [`Farm::get_crop_types`].
pub open spec fn crop_types_spec() -> Seq<(Seq<char>, u64, u32)> {
    seq![("小麦"@, 30u64, 10u32), ("土豆"@, 60u64, 25u32), ("胡萝卜"@, 45u64, 18u32)]
}

/// The animals of [`Farm::new`].
pub open spec fn new_animals_spec() -> Seq<(Seq<char>, u64, u32)> {
    seq![("鸡"@, 120u64, 15u32), ("牛"@, 300u64, 50u32), ("羊"@, 180u64, 25u32)]
}

/// `a` after breeding starts at `now`.
pub open spec fn breeding_from(a: Animal, now: u64) -> Animal {
    Animal { breeding: true, breed_started_at_secs: Some(now), ..a }
}

/// `a` after its yield is collected.
pub open spec fn collected(a: Animal) -> Animal {
    Animal { breeding: false, breed_started_at_secs: None, ..a }
}

/// The view of a plant/breed result.
pub open spec fn unit_result(r: Result<(), String>) -> Result<(), Seq<char>> {
    match r {
        Ok(()) => Ok(()),
        Err(e) => Err(e@),
    }
}

fn idle(name: &str, breed_time_secs: u64, yield_gold: u32) -> (r: Animal)
    ensures
        r.name@ == name@,
        r.breed_time_secs == breed_time_secs,
        r.yield_gold == yield_gold,
        !r.breeding,
        r.breed_started_at_secs.is_none(),
{
    Animal {
        name: String::from_str(name),
        breed_time_secs,
        yield_gold,
        breeding: false,
        breed_started_at_secs: None,
    }
}

impl Farm {
    /// Four empty plots and an idle chicken, cow and sheep.
    pub fn new() -> (r: Farm)
        ensures
            r.plots@ == seq![None::<Crop>, None::<Crop>, None::<Crop>, None::<Crop>],
            r.animals@.len() == 3,
            forall|i: int|
                0 <= i < 3 ==> {
                    let a = #[trigger] r.animals@[i];
                    &&& (a.name@, a.breed_time_secs, a.yield_gold) == new_animals_spec()[i]
                    &&& !a.breeding
                    &&& a.breed_started_at_secs.is_none()
                },
    {
        let mut plots: Vec<Option<Crop>> = Vec::new();
        plots.push(None);
        plots.push(None);
        plots.push(None);
        plots.push(None);
        let mut animals: Vec<Animal> = Vec::new();
        animals.push(idle("鸡", 120, 15));
        animals.push(idle("牛", 300, 50));
        animals.push(idle("羊", 180, 25));
        assert(plots@ =~= seq![None::<Crop>, None::<Crop>, None::<Crop>, None::<Crop>]);
        Farm { plots, animals }
    }

    /// The plantable crop types as `(name, grow time, yield)`.
    pub fn get_crop_types() -> (r: Vec<(String, u64, u32)>)
        ensures
            r@.map_values(|t: (String, u64, u32)| (t.0@, t.1, t.2)) == crop_types_spec(),
    {
        let mut v: Vec<(String, u64, u32)> = Vec::new();
        v.push((String::from_str("小麦"), 30, 10));
        v.push((String::from_str("土豆"), 60, 25));
        v.push((String::from_str("胡萝卜"), 45, 18));
        assert(v@.map_values(|t: (String, u64, u32)| (t.0@, t.1, t.2)) =~= crop_types_spec());
        v
    }

    /// Plant crop type number `crop_type_idx` in plot `plot_idx` at time `now`.
    pub fn plant_at(&mut self, plot_idx: usize, crop_type_idx: usize, now: u64) -> (r: Result<(), String>)
        ensures
            plant_outcome(*old(self), *final(self), plot_idx as int, crop_type_idx as int, now, unit_result(r)),
    {
        if plot_idx >= self.plots.len() {
            return Err(String::from_str("无效地块索引。"));
        }
        if self.plots[plot_idx].is_some() {
            return Err(String::from_str("该地块已被占用。"));
        }
        let crop_types = Self::get_crop_types();
        if crop_type_idx >= crop_types.len() {
            return Err(String::from_str("无效作物类型。"));
        }
        let t = &crop_types[crop_type_idx];
        assert((t.0@, t.1, t.2) == crop_types_spec()[crop_type_idx as int]);
        self.plots.set(
            plot_idx,
            Some(
                Crop {
                    name: t.0.clone(),
                    grow_time_secs: t.1,
                    yield_gold: t.2,
                    planted_at_secs: Some(now),
                },
            ),
        );
        Ok(())
    }

    /// Plant crop type number `crop_type_idx` in plot `plot_idx`, recording
    /// the current time as the planting time.
    pub fn plant(&mut self, plot_idx: usize, crop_type_idx: usize) -> (r: Result<(), String>)
        ensures
            exists|now: u64|
                #[trigger] plant_outcome(
                    *old(self),
                    *final(self),
                    plot_idx as int,
                    crop_type_idx as int,
                    now,
                    unit_result(r),
                ),
    {
        let now = current_unix_secs();
        self.plant_at(plot_idx, crop_type_idx, now)
    }

    /// Harvest the crop in plot `plot_idx` if it is ready at time `now`,
    /// emptying the plot and returning its gold value.
    pub fn harvest_at(&mut self, plot_idx: usize, now: u64) -> (r: Option<u32>)
        ensures
            harvest_outcome(*old(self), *final(self), plot_idx as int, now as int, r),
    {
        if plot_idx >= self.plots.len() {
            return None;
        }
        let ready = match &self.plots[plot_idx] {
            Some(c) => c.is_ready_at(now),
            None => {
                return None;
            },
        };
        if ready {
            let gold = match &self.plots[plot_idx] {
                Some(c) => c.yield_gold,
                None => 0,
            };
            self.plots.set(plot_idx, None);
            Some(gold)
        } else {
            None
        }
    }

    /// Harvest the crop in plot `plot_idx` if it is ready by the clock.
    pub fn harvest(&mut self, plot_idx: usize) -> (r: Option<u32>)
        ensures
            exists|now: u64|
                #[trigger] harvest_outcome(*old(self), *final(self), plot_idx as int, now as int, r),
    {
        let now = current_unix_secs();
        self.harvest_at(plot_idx, now)
    }

    /// Start breeding animal `animal_idx` at time `now`.
    pub fn start_breeding_at(&mut self, animal_idx: usize, now: u64) -> (r: Result<(), String>)
        ensures
            breed_outcome(*old(self), *final(self), animal_idx as int, now, unit_result(r)),
    {
        if animal_idx >= self.animals.len() {
            return Err(String::from_str("无效动物索引。"));
        }
        if self.animals[animal_idx].breeding {
            let mut e = self.animals[animal_idx].name.clone();
            e.append(" 已经在繁殖中了。");
            return Err(e);
        }
        let a = &self.animals[animal_idx];
        let na = Animal {
            name: a.name.clone(),
            breed_time_secs: a.breed_time_secs,
            yield_gold: a.yield_gold,
            breeding: true,
            breed_started_at_secs: Some(now),
        };
        self.animals.set(animal_idx, na);
        Ok(())
    }

    /// Start breeding animal `animal_idx`, recording the current time.
    pub fn start_breeding(&mut self, animal_idx: usize) -> (r: Result<(), String>)
        ensures
            exists|now: u64|
                #[trigger] breed_outcome(
                    *old(self),
                    *final(self),
                    animal_idx as int,
                    now,
                    unit_result(r),
                ),
    {
        let now = current_unix_secs();
        self.start_breeding_at(animal_idx, now)
    }

    /// Collect animal `animal_idx`'s yield if it is ready at time `now`,
    /// returning it to idle.
    pub fn collect_animal_at(&mut self, animal_idx: usize, now: u64) -> (r: Option<u32>)
        ensures
            collect_outcome(*old(self), *final(self), animal_idx as int, now as int, r),
    {
        if animal_idx >= self.animals.len() {
            return None;
        }
        if !self.animals[animal_idx].is_ready_at(now) {
            return None;
        }
        let a = &self.animals[animal_idx];
        let gold = a.yield_gold;
        let na = Animal {
            name: a.name.clone(),
            breed_time_secs: a.breed_time_secs,
            yield_gold: a.yield_gold,
            breeding: false,
            breed_started_at_secs: None,
        };
        self.animals.set(animal_idx, na);
        Some(gold)
    }

    /// Collect animal `animal_idx`'s yield if it is ready by the clock.
    pub fn collect_animal(&mut self, animal_idx: usize) -> (r: Option<u32>)
        ensures
            exists|now: u64|
                #[trigger] collect_outcome(*old(self), *final(self), animal_idx as int, now as int, r),
    {
        let now = current_unix_secs();
        self.collect_animal_at(animal_idx, now)
    }
}

/// The effect of planting crop type number `ti` in plot `idx` at `now`: an
/// error for a bad plot index, an occupied plot or a bad type index (farm
/// unchanged), otherwise the plot holds the new crop.
pub open spec fn plant_outcome(f0: Farm, f1: Farm, idx: int, ti: int, now: u64, r: Result<(), Seq<char>>) -> bool {
    if idx < 0 || idx >= f0.plots@.len() {
        r == Err::<(), Seq<char>>("无效地块索引。"@) && f1 == f0
    } else if f0.plots@[idx].is_some() {
        r == Err::<(), Seq<char>>("该地块已被占用。"@) && f1 == f0
    } else if ti < 0 || ti >= crop_types_spec().len() {
        r == Err::<(), Seq<char>>("无效作物类型。"@) && f1 == f0
    } else {
        &&& r == Ok::<(), Seq<char>>(())
        &&& f1.plots@.len() == f0.plots@.len()
        &&& forall|j: int| 0 <= j < f0.plots@.len() && j != idx ==> f1.plots@[j] == f0.plots@[j]
        &&& f1.plots@[idx] matches Some(c) && planted(crop_types_spec()[ti], now, c)
        &&& f1.animals == f0.animals
    }
}

/// The effect of harvesting plot `idx` at `now`: if its crop is ready, the
/// crop's gold and an empty plot; otherwise nothing and no change.
pub open spec fn harvest_outcome(f0: Farm, f1: Farm, idx: int, now: int, r: Option<u32>) -> bool {
    if plot_ready(f0.plots@, idx, now) {
        r == Some(f0.plots@[idx]->0.yield_gold) && f1.plots@ == f0.plots@.update(idx, None)
            && f1.animals == f0.animals
    } else {
        r.is_none() && f1 == f0
    }
}

/// The effect of starting to breed animal `idx` at `now`.
pub open spec fn breed_outcome(f0: Farm, f1: Farm, idx: int, now: u64, r: Result<(), Seq<char>>) -> bool {
    if idx < 0 || idx >= f0.animals@.len() {
        r == Err::<(), Seq<char>>("无效动物索引。"@) && f1 == f0
    } else if f0.animals@[idx].breeding {
        r == Err::<(), Seq<char>>(f0.animals@[idx].name@ + " 已经在繁殖中了。"@) && f1 == f0
    } else {
        r == Ok::<(), Seq<char>>(()) && f1.animals@ == f0.animals@.update(
            idx,
            breeding_from(f0.animals@[idx], now),
        ) && f1.plots == f0.plots
    }
}

/// The effect of collecting animal `idx` at `now`.
pub open spec fn collect_outcome(f0: Farm, f1: Farm, idx: int, now: int, r: Option<u32>) -> bool {
    if 0 <= idx < f0.animals@.len() && f0.animals@[idx].ready_at(now) {
        r == Some(f0.animals@[idx].yield_gold) && f1.animals@ == f0.animals@.update(
            idx,
            collected(f0.animals@[idx]),
        ) && f1.plots == f0.plots
    } else {
        r.is_none() && f1 == f0
    }
}

/// Planting a crop and harvesting it once its grow time has passed yields
/// the crop type's gold and leaves the plot as it was before planting.
pub proof fn law_plant_then_harvest(f0: Farm, f1: Farm, f2: Farm, idx: int, ti: int, planted_at: u64, now: int, r: Option<u32>)
    requires
        plant_outcome(f0, f1, idx, ti, planted_at, Ok(())),
        harvest_outcome(f1, f2, idx, now, r),
        0 <= ti < crop_types_spec().len(),
        now >= planted_at + crop_types_spec()[ti].1,
    ensures
        r == Some(crop_types_spec()[ti].2),
        f2.plots@ == f0.plots@,
        f2.animals == f0.animals,
{
    assert(f2.plots@ =~= f0.plots@);
}

/// Starting to breed an idle animal and collecting it once its breed time has
/// passed yields the animal's gold and leaves it idle again.
pub proof fn law_breed_then_collect(f0: Farm, f1: Farm, f2: Farm, idx: int, started: u64, now: int, r: Option<u32>)
    requires
        breed_outcome(f0, f1, idx, started, Ok(())),
        f0.animals@[idx].breed_started_at_secs.is_none(),
        collect_outcome(f1, f2, idx, now, r),
        now >= started + f0.animals@[idx].breed_time_secs,
    ensures
        r == Some(f0.animals@[idx].yield_gold),
        f2.animals@ == f0.animals@,
        f2.plots == f0.plots,
{
    assert(f2.animals@ =~= f0.animals@);
}

} // verus!
