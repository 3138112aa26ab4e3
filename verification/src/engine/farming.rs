//! Farming and animal breeding.
//!
//! Crops and animals record the Unix time at which they were planted or
//! started breeding; readiness is checked on demand against the clock.
//! Each time-dependent operation has an `_at` form that takes the current
//! time as an argument and is specified exactly in terms of it.

use vstd::prelude::*;
use vstd::string::*;
use super::current_unix_secs;

verus! {

/// A crop type that can be planted.
#[derive(Clone, Debug)]
pub struct CropType {
    pub name: String,
    pub grow_time_secs: u64,
    pub yield_gold: u32,
}

/// An animal type that can be bred.
#[derive(Clone, Debug)]
pub struct AnimalType {
    pub name: String,
    pub breed_time_secs: u64,
    pub yield_gold: u32,
}

/// A crop growing in a plot.
#[derive(Clone, Debug)]
pub struct Crop {
    pub name: String,
    pub grow_time_secs: u64,
    pub yield_gold: u32,
    pub planted_at_secs: Option<u64>,
}

/// A farm animal.
#[derive(Clone, Debug)]
pub struct Animal {
    pub name: String,
    pub breed_time_secs: u64,
    pub yield_gold: u32,
    pub breeding: bool,
    pub breed_started_at_secs: Option<u64>,
}

/// The farm: crop plots and animals.
#[derive(Clone, Debug)]
pub struct Farm {
    pub plots: Vec<Option<Crop>>,
    pub animals: Vec<Animal>,
}

impl Crop {
    /// Ready at time `now`: planted, and the grow time has elapsed.
    pub open spec fn ready_at(&self, now: int) -> bool {
        match self.planted_at_secs {
            Some(t) => now >= t + self.grow_time_secs,
            None => false,
        }
    }

    /// Whether the crop is ready at time `now`.
    pub fn is_ready_at(&self, now: u64) -> (r: bool)
        ensures
            r == self.ready_at(now as int),
    {
        match self.planted_at_secs {
            Some(t) => now >= t && now - t >= self.grow_time_secs,
            None => false,
        }
    }

    /// Whether the grow time has elapsed since planting, by the clock.
    pub fn is_ready(&self) -> (r: bool)
        ensures
            exists|now: u64| r == self.ready_at(now as int),
            self.planted_at_secs.is_none() ==> !r,
    {
        let now = current_unix_secs();
        self.is_ready_at(now)
    }
}

impl Animal {
    /// Ready at time `now`: breeding, and the breed time has elapsed.
    pub open spec fn ready_at(&self, now: int) -> bool {
        self.breeding && match self.breed_started_at_secs {
            Some(t) => now >= t + self.breed_time_secs,
            None => false,
        }
    }

    /// Whether the animal is ready at time `now`.
    pub fn is_ready_at(&self, now: u64) -> (r: bool)
        ensures
            r == self.ready_at(now as int),
    {
        self.breeding && match self.breed_started_at_secs {
            Some(t) => now >= t && now - t >= self.breed_time_secs,
            None => false,
        }
    }

    /// Whether the breed time has elapsed since breeding began, by the clock.
    pub fn is_ready(&self) -> (r: bool)
        ensures
            exists|now: u64| r == self.ready_at(now as int),
            !self.breeding ==> !r,
    {
        let now = current_unix_secs();
        self.is_ready_at(now)
    }
}

/// The fields of a crop type.
pub open spec fn crop_type_view(t: CropType) -> (Seq<char>, u64, u32) {
    (t.name@, t.grow_time_secs, t.yield_gold)
}

/// The fields of an animal type.
pub open spec fn animal_type_view(t: AnimalType) -> (Seq<char>, u64, u32) {
    (t.name@, t.breed_time_secs, t.yield_gold)
}

/// Plot `idx` holds a crop that is ready at time `now`.
pub open spec fn plot_ready(plots: Seq<Option<Crop>>, idx: int, now: int) -> bool {
    0 <= idx < plots.len() && match plots[idx] {
        Some(c) => c.ready_at(now),
        None => false,
    }
}

/// An idle animal of the given type.
pub open spec fn idle_animal(t: AnimalType) -> Animal {
    Animal {
        name: t.name,
        breed_time_secs: t.breed_time_secs,
        yield_gold: t.yield_gold,
        breeding: false,
        breed_started_at_secs: None,
    }
}

/// A crop of type `t` planted at `now`.
pub open spec fn planted(t: CropType, now: u64) -> Crop {
    Crop {
        name: t.name,
        grow_time_secs: t.grow_time_secs,
        yield_gold: t.yield_gold,
        planted_at_secs: Some(now),
    }
}

/// `a` after breeding starts at `now`.
pub open spec fn breeding_from(a: Animal, now: u64) -> Animal {
    Animal { breeding: true, breed_started_at_secs: Some(now), ..a }
}

/// `a` after its yield is collected.
pub open spec fn collected(a: Animal) -> Animal {
    Animal { breeding: false, breed_started_at_secs: None, ..a }
}

/// The built-in crop types: wheat, potato and carrot.
pub open spec fn default_crop_views() -> Seq<(Seq<char>, u64, u32)> {
    seq![("小麦"@, 30u64, 10u32), ("土豆"@, 60u64, 25u32), ("胡萝卜"@, 45u64, 18u32)]
}

/// The built-in animal types: chicken, cow and sheep.
pub open spec fn default_animal_views() -> Seq<(Seq<char>, u64, u32)> {
    seq![("鸡"@, 120u64, 15u32), ("牛"@, 300u64, 50u32), ("羊"@, 180u64, 25u32)]
}

/// The names of the farm's animals, in order.
pub open spec fn animal_names(animals: Seq<Animal>) -> Seq<Seq<char>> {
    animals.map_values(|a: Animal| a.name@)
}

/// The view of a plant/breed result.
pub open spec fn unit_result(r: Result<(), String>) -> Result<(), Seq<char>> {
    match r {
        Ok(()) => Ok(()),
        Err(e) => Err(e@),
    }
}

impl Farm {
    /// Position of the first animal named `name`.
    pub(crate) fn animal_position(&self, name: &str) -> (r: Option<usize>)
        ensures
            match r {
                Some(i) => animal_names(self.animals@).index_of_first(name@) == Some(i as int),
                None => animal_names(self.animals@).index_of_first(name@) == None::<int>,
            },
    {
        let ghost ns = animal_names(self.animals@);
        proof {
            ns.index_of_first_ensures(name@);
        }
        let mut i: usize = 0;
        while i < self.animals.len()
            invariant
                i <= self.animals@.len(),
                ns == animal_names(self.animals@),
                forall|j: int| 0 <= j < i ==> ns[j] != name@,
            decreases self.animals@.len() - i,
        {
            if self.animals[i].name == String::from_str(name) {
                proof {
                    ns.index_of_first_ensures(name@);
                    assert(ns[i as int] == name@);
                    assert(ns.contains(name@));
                    let k = ns.index_of_first(name@)->0;
                    if k < i {
                        assert(ns[k] != name@);
                    }
                    if k > i {
                        assert(ns[i as int] != name@);
                    }
                }
                return Some(i);
            }
            i = i + 1;
        }
        proof {
            ns.index_of_first_ensures(name@);
            if ns.contains(name@) {
                let k = choose|k: int| 0 <= k < ns.len() && ns[k] == name@;
                assert(ns[k] != name@);
            }
        }
        None
    }
}

impl Farm {
    /// A farm with `num_plots` empty plots and one idle animal per type.
    pub fn from_types(animal_types: &[AnimalType], num_plots: usize) -> (r: Farm)
        ensures
            r.plots@ == Seq::new(num_plots as nat, |i: int| None::<Crop>),
            r.animals@ == animal_types@.map_values(|t: AnimalType| idle_animal(t)),
    {
        let mut plots: Vec<Option<Crop>> = Vec::new();
        let mut i: usize = 0;
        while i < num_plots
            invariant
                i <= num_plots,
                plots@ == Seq::new(i as nat, |j: int| None::<Crop>),
            decreases num_plots - i,
        {
            plots.push(None);
            i = i + 1;
            assert(plots@ =~= Seq::new(i as nat, |j: int| None::<Crop>));
        }
        let mut animals: Vec<Animal> = Vec::new();
        let mut k: usize = 0;
        while k < animal_types.len()
            invariant
                k <= animal_types@.len(),
                animals@ == animal_types@.take(k as int).map_values(|t: AnimalType| idle_animal(t)),
            decreases animal_types@.len() - k,
        {
            let t = &animal_types[k];
            animals.push(
                Animal {
                    name: t.name.clone(),
                    breed_time_secs: t.breed_time_secs,
                    yield_gold: t.yield_gold,
                    breeding: false,
                    breed_started_at_secs: None,
                },
            );
            k = k + 1;
            assert(animals@ =~= animal_types@.take(k as int).map_values(
                |t: AnimalType| idle_animal(t),
            ));
        }
        assert(animal_types@.take(animal_types@.len() as int) =~= animal_types@);
        Farm { plots, animals }
    }

    /// The built-in crop types: wheat, potato and carrot.
    pub fn default_crop_types() -> (r: Vec<CropType>)
        ensures
            r@.map_values(|t: CropType| crop_type_view(t)) == default_crop_views(),
    {
        let mut v: Vec<CropType> = Vec::new();
        v.push(CropType { name: String::from_str("小麦"), grow_time_secs: 30, yield_gold: 10 });
        v.push(CropType { name: String::from_str("土豆"), grow_time_secs: 60, yield_gold: 25 });
        v.push(CropType { name: String::from_str("胡萝卜"), grow_time_secs: 45, yield_gold: 18 });
        assert(v@.map_values(|t: CropType| crop_type_view(t)) =~= seq![
            ("小麦"@, 30u64, 10u32),
            ("土豆"@, 60u64, 25u32),
            ("胡萝卜"@, 45u64, 18u32),
        ]);
        v
    }

    /// The built-in animal types: chicken, cow and sheep.
    pub fn default_animal_types() -> (r: Vec<AnimalType>)
        ensures
            r@.map_values(|t: AnimalType| animal_type_view(t)) == default_animal_views(),
    {
        let mut v: Vec<AnimalType> = Vec::new();
        v.push(AnimalType { name: String::from_str("鸡"), breed_time_secs: 120, yield_gold: 15 });
        v.push(AnimalType { name: String::from_str("牛"), breed_time_secs: 300, yield_gold: 50 });
        v.push(AnimalType { name: String::from_str("羊"), breed_time_secs: 180, yield_gold: 25 });
        assert(v@.map_values(|t: AnimalType| animal_type_view(t)) =~= seq![
            ("鸡"@, 120u64, 15u32),
            ("牛"@, 300u64, 50u32),
            ("羊"@, 180u64, 25u32),
        ]);
        v
    }

    /// Plant a crop of type `crop` in plot `plot_idx` at time `now`.
    pub fn plant_at(&mut self, plot_idx: usize, crop: &CropType, now: u64) -> (r: Result<(), String>)
        ensures
            plant_outcome(*old(self), *final(self), plot_idx as int, *crop, now, unit_result(r)),
    {
        if plot_idx >= self.plots.len() {
            return Err(String::from_str("无效地块索引。"));
        }
        if self.plots[plot_idx].is_some() {
            return Err(String::from_str("该地块已被占用。"));
        }
        self.plots.set(
            plot_idx,
            Some(
                Crop {
                    name: crop.name.clone(),
                    grow_time_secs: crop.grow_time_secs,
                    yield_gold: crop.yield_gold,
                    planted_at_secs: Some(now),
                },
            ),
        );
        Ok(())
    }

    /// Plant a crop of type `crop` in plot `plot_idx`, recording the current
    /// time as the planting time.
    pub fn plant(&mut self, plot_idx: usize, crop: &CropType) -> (r: Result<(), String>)
        ensures
            exists|now: u64|
                #[trigger] plant_outcome(
                    *old(self),
                    *final(self),
                    plot_idx as int,
                    *crop,
                    now,
                    unit_result(r),
                ),
    {
        let now = current_unix_secs();
        self.plant_at(plot_idx, crop, now)
    }

    /// Harvest the crop in plot `plot_idx` if it is ready at time `now`,
    /// emptying the plot and returning its gold value.
    pub fn harvest_at(&mut self, plot_idx: usize, now: u64) -> (r: Option<u32>)
        ensures
            harvest_outcome(*old(self), *final(self), plot_idx as int, now as int, r),
    {
        if plot_idx >= self.plots.len() {
            return None;
        }
        let ready = match &self.plots[plot_idx] {
            Some(c) => c.is_ready_at(now),
            None => {
                return None;
            },
        };
        if ready {
            let gold = match &self.plots[plot_idx] {
                Some(c) => c.yield_gold,
                None => 0,
            };
            self.plots.set(plot_idx, None);
            Some(gold)
        } else {
            None
        }
    }

    /// Harvest the crop in plot `plot_idx` if it is ready by the clock.
    pub fn harvest(&mut self, plot_idx: usize) -> (r: Option<u32>)
        ensures
            exists|now: u64|
                #[trigger] harvest_outcome(*old(self), *final(self), plot_idx as int, now as int, r),
    {
        let now = current_unix_secs();
        self.harvest_at(plot_idx, now)
    }

    /// Start breeding animal `animal_idx` at time `now`.
    pub fn start_breeding_at(&mut self, animal_idx: usize, now: u64) -> (r: Result<(), String>)
        ensures
            breed_outcome(*old(self), *final(self), animal_idx as int, now, unit_result(r)),
    {
        if animal_idx >= self.animals.len() {
            return Err(String::from_str("无效动物索引。"));
        }
        if self.animals[animal_idx].breeding {
            let mut e = self.animals[animal_idx].name.clone();
            e.append(" 已经在繁殖中了。");
            return Err(e);
        }
        let a = &self.animals[animal_idx];
        let na = Animal {
            name: a.name.clone(),
            breed_time_secs: a.breed_time_secs,
            yield_gold: a.yield_gold,
            breeding: true,
            breed_started_at_secs: Some(now),
        };
        self.animals.set(animal_idx, na);
        Ok(())
    }

    /// Start breeding animal `animal_idx`, recording the current time.
    pub fn start_breeding(&mut self, animal_idx: usize) -> (r: Result<(), String>)
        ensures
            exists|now: u64|
                #[trigger] breed_outcome(
                    *old(self),
                    *final(self),
                    animal_idx as int,
                    now,
                    unit_result(r),
                ),
    {
        let now = current_unix_secs();
        self.start_breeding_at(animal_idx, now)
    }

    /// Collect animal `animal_idx`'s yield if it is ready at time `now`,
    /// returning it to idle.
    pub fn collect_animal_at(&mut self, animal_idx: usize, now: u64) -> (r: Option<u32>)
        ensures
            collect_outcome(*old(self), *final(self), animal_idx as int, now as int, r),
    {
        if animal_idx >= self.animals.len() {
            return None;
        }
        if !self.animals[animal_idx].is_ready_at(now) {
            return None;
        }
        let a = &self.animals[animal_idx];
        let gold = a.yield_gold;
        let na = Animal {
            name: a.name.clone(),
            breed_time_secs: a.breed_time_secs,
            yield_gold: a.yield_gold,
            breeding: false,
            breed_started_at_secs: None,
        };
        self.animals.set(animal_idx, na);
        Some(gold)
    }

    /// Collect animal `animal_idx`'s yield if it is ready by the clock.
    pub fn collect_animal(&mut self, animal_idx: usize) -> (r: Option<u32>)
        ensures
            exists|now: u64|
                #[trigger] collect_outcome(*old(self), *final(self), animal_idx as int, now as int, r),
    {
        let now = current_unix_secs();
        self.collect_animal_at(animal_idx, now)
    }
}

/// The effect of planting crop type `t` in plot `idx` at `now`: an error
/// for a bad index or an occupied plot (farm unchanged), otherwise the plot
/// holds the new crop.
pub open spec fn plant_outcome(f0: Farm, f1: Farm, idx: int, t: CropType, now: u64, r: Result<(), Seq<char>>) -> bool {
    if idx < 0 || idx >= f0.plots@.len() {
        r == Err::<(), Seq<char>>("无效地块索引。"@) && f1 == f0
    } else if f0.plots@[idx].is_some() {
        r == Err::<(), Seq<char>>("该地块已被占用。"@) && f1 == f0
    } else {
        r == Ok::<(), Seq<char>>(()) && f1.plots@ == f0.plots@.update(idx, Some(planted(t, now)))
            && f1.animals == f0.animals
    }
}

/// The effect of harvesting plot `idx` at `now`: if its crop is ready, the
/// crop's gold and an empty plot; otherwise nothing and no change.
pub open spec fn harvest_outcome(f0: Farm, f1: Farm, idx: int, now: int, r: Option<u32>) -> bool {
    if plot_ready(f0.plots@, idx, now) {
        r == Some(f0.plots@[idx]->0.yield_gold) && f1.plots@ == f0.plots@.update(idx, None)
            && f1.animals == f0.animals
    } else {
        r.is_none() && f1 == f0
    }
}

/// The effect of starting to breed animal `idx` at `now`.
pub open spec fn breed_outcome(f0: Farm, f1: Farm, idx: int, now: u64, r: Result<(), Seq<char>>) -> bool {
    if idx < 0 || idx >= f0.animals@.len() {
        r == Err::<(), Seq<char>>("无效动物索引。"@) && f1 == f0
    } else if f0.animals@[idx].breeding {
        r == Err::<(), Seq<char>>(f0.animals@[idx].name@ + " 已经在繁殖中了。"@) && f1 == f0
    } else {
        r == Ok::<(), Seq<char>>(()) && f1.animals@ == f0.animals@.update(
            idx,
            breeding_from(f0.animals@[idx], now),
        ) && f1.plots == f0.plots
    }
}

/// The effect of collecting animal `idx` at `now`.
pub open spec fn collect_outcome(f0: Farm, f1: Farm, idx: int, now: int, r: Option<u32>) -> bool {
    if 0 <= idx < f0.animals@.len() && f0.animals@[idx].ready_at(now) {
        r == Some(f0.animals@[idx].yield_gold) && f1.animals@ == f0.animals@.update(
            idx,
            collected(f0.animals@[idx]),
        ) && f1.plots == f0.plots
    } else {
        r.is_none() && f1 == f0
    }
}

/// Planting a crop and harvesting it once its grow time has passed yields
/// the crop type's gold and leaves the plot as it was before planting.
pub proof fn law_plant_then_harvest(f0: Farm, f1: Farm, f2: Farm, idx: int, t: CropType, planted_at: u64, now: int, r: Option<u32>)
    requires
        plant_outcome(f0, f1, idx, t, planted_at, Ok(())),
        harvest_outcome(f1, f2, idx, now, r),
        now >= planted_at + t.grow_time_secs,
    ensures
        r == Some(t.yield_gold),
        f2.plots@ == f0.plots@,
        f2.animals == f0.animals,
{
    assert(f2.plots@ =~= f0.plots@);
}

/// Starting to breed an idle animal and collecting it once its breed time has
/// passed yields the animal's gold and leaves it idle again.
pub proof fn law_breed_then_collect(f0: Farm, f1: Farm, f2: Farm, idx: int, started: u64, now: int, r: Option<u32>)
    requires
        breed_outcome(f0, f1, idx, started, Ok(())),
        f0.animals@[idx].breed_started_at_secs.is_none(),
        collect_outcome(f1, f2, idx, now, r),
        now >= started + f0.animals@[idx].breed_time_secs,
    ensures
        r == Some(f0.animals@[idx].yield_gold),
        f2.animals@ == f0.animals@,
        f2.plots == f0.plots,
{
    assert(f2.animals@ =~= f0.animals@);
}

} // verus!
