use vstd::prelude::*;

verus! {

/// Longest charge or duration time, in seconds, that an ability may declare.
/// Keeps the millisecond equivalents within `u32`.
pub const MAX_TIMED_SECONDS: u32 = 4000000;

pub const MILLIS_PER_SECOND: u32 = 1000;

/// Type of ability.
#[derive(Clone, Copy, PartialEq, Eq, Structural, Debug)]
pub enum AbilityType {
    Mask,
    SprayBottle,
    Bucket,
    TriShot,
    RangeBoost,
    BugSpray,
    FlySwatter,
    HiveTrap,
}

/// Information about an ability.
#[derive(Clone, Copy, PartialEq, Eq, Structural, Debug)]
pub struct AbilityInfo {
    /// Seconds for the ability to charge.
    pub seconds_to_charge: u32,
    /// Seconds for the ability to be active (and stay in the active set).
    /// If there is no duration, the system managing this ability has to
    /// manually remove it from the active set.
    pub duration: Option<u32>,
    /// The type of ability.
    pub ability_type: AbilityType,
    /// The maximum amount of times this ability can be used.
    pub max_uses: Option<u32>,
}

/// The current state of an ability.
///
/// `progress_ms` replaces the charge/duration percentage: while recharging it
/// counts milliseconds charged so far (full at `charge_ms`), and while an
/// ability with a duration is active it counts the milliseconds of duration
/// that remain (full at `duration_ms`, expired at 0).
#[derive(Clone, Copy, PartialEq, Eq, Structural, Debug)]
pub struct AbilityState {
    /// Charge/duration progress, in milliseconds.
    pub progress_ms: u32,
    /// How many times the ability has been used.
    pub uses: u32,
}

/// The ability's info and its current state.
#[derive(Clone, Copy, PartialEq, Eq, Structural, Debug)]
pub struct Ability {
    pub info: AbilityInfo,
    pub current_state: AbilityState,
}

impl AbilityInfo {
    /// Charge and duration times are at least a second and small enough that
    /// their millisecond equivalents fit in `u32`.
    pub open spec fn wf(self) -> bool {
        &&& 1 <= self.seconds_to_charge <= MAX_TIMED_SECONDS
        &&& match self.duration {
            Some(d) => 1 <= d <= MAX_TIMED_SECONDS,
            None => true,
        }
    }

    /// Milliseconds for the ability to charge fully.
    pub open spec fn charge_ms_spec(self) -> int {
        self.seconds_to_charge * MILLIS_PER_SECOND
    }

    /// Milliseconds the ability stays active; meaningful only when it
    /// declares a duration.
    pub open spec fn duration_ms_spec(self) -> int {
        match self.duration {
            Some(d) => d * MILLIS_PER_SECOND,
            None => 0,
        }
    }

    pub fn charge_ms(&self) -> (r: u32)
        requires
            self.wf(),
        ensures
            r == self.charge_ms_spec(),
    {
        self.seconds_to_charge * MILLIS_PER_SECOND
    }

    pub fn duration_ms(&self) -> (r: Option<u32>)
        requires
            self.wf(),
        ensures
            r is Some <==> self.duration is Some,
            r is Some ==> r->Some_0 == self.duration_ms_spec(),
    {
        match self.duration {
            Some(d) => Some(d * MILLIS_PER_SECOND),
            None => None,
        }
    }
}

impl AbilityState {
    /// A fresh state, fully charged and never used.
    pub fn default(info: &AbilityInfo) -> (s: Self)
        requires
            info.wf(),
        ensures
            s.progress_ms == info.charge_ms_spec(),
            s.uses == 0,
    {
        AbilityState { progress_ms: info.charge_ms(), uses: 0 }
    }

    /// A fresh state that still has to charge from zero.
    pub fn start_on_cooldown() -> (s: Self)
        ensures
            s.progress_ms == 0,
            s.uses == 0,
    {
        AbilityState { progress_ms: 0, uses: 0 }
    }
}

impl Ability {
    /// The progress value that counts as full, given whether the ability is
    /// in the active set.
    pub open spec fn cap_spec(self, active: bool) -> int {
        if active && self.info.duration is Some {
            self.info.duration_ms_spec()
        } else {
            self.info.charge_ms_spec()
        }
    }

    pub open spec fn wf(self, active: bool) -> bool {
        &&& self.info.wf()
        &&& self.current_state.progress_ms <= self.cap_spec(active)
    }

    /// The same ability with its progress replaced.
    pub open spec fn with_progress(self, p: u32) -> Ability {
        Ability {
            info: self.info,
            current_state: AbilityState { progress_ms: p, uses: self.current_state.uses },
        }
    }

    /// Whether a use limit is declared and exhausted.
    pub open spec fn maxed_out(self) -> bool {
        match self.info.max_uses {
            Some(m) => self.current_state.uses >= m,
            None => false,
        }
    }
}

/// What one tick of `dt_ms` milliseconds does to a single ability.  Returns
/// the stepped ability together with whether the ability's duration expired
/// on this tick (in which case it has to leave the active set).
///
/// An active ability with a duration counts its remaining time down and
/// expires when the time left is at most `dt_ms`; any other ability
/// recharges, clamped at full, except that an ability whose uses are
/// exhausted is forced to zero progress for good.
pub open spec fn tick_spec(a: Ability, active: bool, dt_ms: u32) -> (Ability, bool) {
    if active && a.info.duration is Some {
        if a.current_state.progress_ms <= dt_ms {
            (a.with_progress(0), true)
        } else {
            (a.with_progress((a.current_state.progress_ms - dt_ms) as u32), false)
        }
    } else {
        let charged = if a.current_state.progress_ms + dt_ms >= a.info.charge_ms_spec() {
            a.info.charge_ms_spec()
        } else {
            a.current_state.progress_ms + dt_ms
        };
        let p = if a.maxed_out() {
            0
        } else {
            charged
        };
        (a.with_progress(p as u32), false)
    }
}

/// Advances one ability by `dt_ms` milliseconds, exactly as `tick_spec`
/// says.  `active` tells whether the ability's index is currently in the
/// active set; the caller removes it when the result reports expiry.
pub fn tick_ability(a: &mut Ability, active: bool, dt_ms: u32) -> (expired: bool)
    requires
        old(a).wf(active),
    ensures
        (*final(a), expired) == tick_spec(*old(a), active, dt_ms),
        final(a).wf(active && !expired),
{
    if active && a.info.duration.is_some() {
        if a.current_state.progress_ms <= dt_ms {
            a.current_state.progress_ms = 0;
            true
        } else {
            a.current_state.progress_ms = a.current_state.progress_ms - dt_ms;
            false
        }
    } else {
        let cap = a.info.charge_ms();
        let headroom = cap - a.current_state.progress_ms;
        let charged = if dt_ms >= headroom {
            cap
        } else {
            a.current_state.progress_ms + dt_ms
        };
        let maxed = match a.info.max_uses {
            Some(m) => a.current_state.uses >= m,
            None => false,
        };
        a.current_state.progress_ms = if maxed {
            0
        } else {
            charged
        };
        false
    }
}

/// No value occurs twice.
pub open spec fn no_dups(s: Seq<usize>) -> bool {
    forall|j: int, k: int| 0 <= j < k < s.len() ==> s[j] != s[k]
}

/// The sequence with the first occurrence of `v` (if any) removed.
pub open spec fn remove_first_value(s: Seq<usize>, v: usize) -> Seq<usize>
    decreases s.len(),
{
    if s.len() == 0 {
        s
    } else if s[0] == v {
        s.subrange(1, s.len() as int)
    } else {
        seq![s[0]] + remove_first_value(s.subrange(1, s.len() as int), v)
    }
}

/// Removing a value that is not there changes nothing.
pub proof fn lemma_remove_first_value_absent(s: Seq<usize>, v: usize)
    requires
        !s.contains(v),
    ensures
        remove_first_value(s, v) == s,
    decreases s.len(),
{
    if s.len() > 0 {
        assert(s[0] != v);
        let tail = s.subrange(1, s.len() as int);
        assert(forall|q: int| 0 <= q < tail.len() ==> tail[q] == s[q + 1]);
        lemma_remove_first_value_absent(tail, v);
        assert(seq![s[0]] + tail =~= s);
    }
}

/// Removing the value at position `p`, when nothing before `p` equals it,
/// is the same as removing the first occurrence.
pub proof fn lemma_remove_first_value_at(s: Seq<usize>, v: usize, p: int)
    requires
        0 <= p < s.len(),
        s[p] == v,
        forall|q: int| 0 <= q < p ==> s[q] != v,
    ensures
        remove_first_value(s, v) == s.remove(p),
    decreases p,
{
    if p == 0 {
        assert(remove_first_value(s, v) == s.subrange(1, s.len() as int));
        assert(s.subrange(1, s.len() as int) =~= s.remove(0));
    } else {
        let tail = s.subrange(1, s.len() as int);
        lemma_remove_first_value_at(tail, v, p - 1);
        assert(seq![s[0]] + tail.remove(p - 1) =~= s.remove(p));
    }
}

/// On a duplicate-free sequence, removing the first occurrence of `v`
/// removes `v` altogether, keeps every other value, keeps the length
/// within one, and keeps the sequence duplicate-free.
pub proof fn lemma_remove_first_value_dupfree(s: Seq<usize>, v: usize)
    requires
        no_dups(s),
    ensures
        !remove_first_value(s, v).contains(v),
        forall|x: usize| x != v ==> (remove_first_value(s, v).contains(x) <==> s.contains(x)),
        no_dups(remove_first_value(s, v)),
        remove_first_value(s, v).len() <= s.len(),
    decreases s.len(),
{
    if s.contains(v) {
        let p = choose|p: int| 0 <= p < s.len() && s[p] == v && (forall|q: int|
            0 <= q < p ==> s[q] != v);
        assert(exists|p: int|
            0 <= p < s.len() && s[p] == v && (forall|q: int| 0 <= q < p ==> s[q] != v)) by {
            let w = choose|w: int| 0 <= w < s.len() && s[w] == v;
            assert(forall|q: int| 0 <= q < w ==> s[q] != v);
        }
        lemma_remove_first_value_at(s, v, p);
        let r = s.remove(p);
        assert forall|x: usize| r.contains(x) implies s.contains(x) by {
            let j = choose|j: int| 0 <= j < r.len() && r[j] == x;
            if j < p {
                assert(s[j] == x);
            } else {
                assert(s[j + 1] == x);
            }
        }
        assert(!r.contains(v)) by {
            if r.contains(v) {
                let j = choose|j: int| 0 <= j < r.len() && r[j] == v;
                if j < p {
                    assert(s[j] == v);
                } else {
                    assert(s[j + 1] == v);
                }
            }
        }
        assert forall|x: usize| x != v && s.contains(x) implies r.contains(x) by {
            let j = choose|j: int| 0 <= j < s.len() && s[j] == x;
            if j < p {
                assert(r[j] == x);
            } else {
                assert(r[j - 1] == x);
            }
        }
    } else {
        lemma_remove_first_value_absent(s, v);
    }
}

/// Whether `v` holds `x`.
pub fn contains_index(v: &Vec<usize>, x: usize) -> (r: bool)
    ensures
        r == v@.contains(x),
{
    let mut j: usize = 0;
    while j < v.len()
        invariant
            j <= v@.len(),
            forall|q: int| 0 <= q < j ==> v@[q] != x,
        decreases v@.len() - j,
    {
        if v[j] == x {
            assert(v@[j as int] == x);
            return true;
        }
        j += 1;
    }
    false
}

/// Removes the first element equal to `item` and returns it, or returns
/// `None` when no element equals it.
pub fn remove_first_found_item(v: &mut Vec<usize>, item: usize) -> (r: Option<usize>)
    ensures
        final(v)@ == remove_first_value(old(v)@, item),
        r is Some <==> old(v)@.contains(item),
        r is Some ==> r->Some_0 == item,
{
    let mut j: usize = 0;
    while j < v.len()
        invariant
            j <= v@.len(),
            v == old(v),
            forall|q: int| 0 <= q < j ==> v@[q] != item,
        decreases v@.len() - j,
    {
        if v[j] == item {
            assert(v@[j as int] == item);
            let x = v.remove(j);
            proof {
                lemma_remove_first_value_at(old(v)@, item, j as int);
            }
            return Some(x);
        }
        j += 1;
    }
    proof {
        lemma_remove_first_value_absent(old(v)@, item);
    }
    None
}

/// All available abilities and all active abilities.
pub struct AbilitiesResource {
    /// All available abilities.
    pub available_abilities: Vec<Ability>,
    /// All active abilities (their index in `available_abilities`).
    pub active_abilities: Vec<usize>,
}

impl AbilitiesResource {
    /// Whether the ability at `i` is in the active set.
    pub open spec fn is_active(self, i: usize) -> bool {
        self.active_abilities@.contains(i)
    }

    /// Active indices are in range and unrepeated, and every ability's
    /// progress is within its current full value.
    pub open spec fn wf(self) -> bool {
        &&& forall|j: int|
            0 <= j < self.active_abilities@.len() ==> (#[trigger] self.active_abilities@[j])
                < self.available_abilities@.len()
        &&& no_dups(self.active_abilities@)
        &&& forall|i: usize|
            i < self.available_abilities@.len() ==> (
            #[trigger] self.available_abilities@[i as int]).wf(self.is_active(i))
    }

    /// Fully charged and not already running.
    pub open spec fn ready(self, i: usize) -> bool {
        &&& self.available_abilities@[i as int].current_state.progress_ms
            == self.available_abilities@[i as int].info.charge_ms_spec()
        &&& !self.is_active(i)
    }

    pub fn new(available_abilities: Vec<Ability>) -> (r: AbilitiesResource)
        requires
            forall|i: int|
                0 <= i < available_abilities@.len() ==> (#[trigger] available_abilities@[i]).wf(
                    false,
                ),
        ensures
            r.available_abilities == available_abilities,
            r.active_abilities@.len() == 0,
            r.wf(),
    {
        let r = AbilitiesResource { available_abilities, active_abilities: Vec::new() };
        proof {
            assert(forall|i: usize| !r.is_active(i));
        }
        r
    }
}

/// The ability after a successful use: the use counter goes up (clamped at
/// its type's maximum); one with a duration keeps full progress, now counting
/// the remaining duration, and one without starts charging from zero.
pub open spec fn used_ability(a: Ability) -> Ability {
    let uses2: u32 = if a.current_state.uses == u32::MAX {
        u32::MAX
    } else {
        (a.current_state.uses + 1) as u32
    };
    match a.info.duration {
        Some(_) => Ability {
            info: a.info,
            current_state: AbilityState {
                progress_ms: a.info.duration_ms_spec() as u32,
                uses: uses2,
            },
        },
        None => Ability {
            info: a.info,
            current_state: AbilityState { progress_ms: 0, uses: uses2 },
        },
    }
}

/// Uses the ability at `index` if it is fully charged and not already
/// active, and is a no-op otherwise.  On success the ability becomes
/// `used_ability` of its old self and `index` joins the active set; the
/// caller of an ability without a duration removes the index again once the
/// one-shot effect has run.
pub fn use_ability(abilities: &mut AbilitiesResource, index: usize)
    requires
        old(abilities).wf(),
        index < old(abilities).available_abilities@.len(),
    ensures
        final(abilities).wf(),
        old(abilities).ready(index) ==> final(abilities).available_abilities@ == old(abilities).available_abilities@.update(
            index as int,
            used_ability(old(abilities).available_abilities@[index as int]),
        ),
        old(abilities).ready(index) ==> final(abilities).active_abilities@ == old(abilities).active_abilities@.push(index),
        !old(abilities).ready(index) ==> *final(abilities) == *old(abilities),
{
    let a = abilities.available_abilities[index];
    let charge = a.info.charge_ms();
    let active = contains_index(&abilities.active_abilities, index);
    if a.current_state.progress_ms == charge && !active {
        let uses2 = a.current_state.uses.saturating_add(1);
        let new_state = match a.info.duration_ms() {
            Some(d) => AbilityState { progress_ms: d, uses: uses2 },
            None => AbilityState { progress_ms: 0, uses: uses2 },
        };
        abilities.available_abilities[index] = Ability { info: a.info, current_state: new_state };
        abilities.active_abilities.push(index);
        proof {
            let r2 = *abilities;
            let r0 = *old(abilities);
            assert forall|x: usize| r2.is_active(x) implies (r0.is_active(x) || x == index) by {
                let j = choose|j: int|
                    0 <= j < r2.active_abilities@.len() && r2.active_abilities@[j] == x;
                if j < r0.active_abilities@.len() {
                    assert(r0.active_abilities@[j] == x);
                }
            }
            assert forall|x: usize| r0.is_active(x) implies r2.is_active(x) by {
                let j = choose|j: int|
                    0 <= j < r0.active_abilities@.len() && r0.active_abilities@[j] == x;
                assert(r2.active_abilities@[j] == x);
            }
            assert(r2.is_active(index)) by {
                assert(r2.active_abilities@.last() == index);
            }
            assert forall|i: usize|
                i < r2.available_abilities@.len() implies (
            #[trigger] r2.available_abilities@[i as int]).wf(r2.is_active(i)) by {
                if i != index {
                    assert(r2.available_abilities@[i as int] == r0.available_abilities@[i as int]);
                    assert(r2.is_active(i) == r0.is_active(i));
                }
            }
        }
    }
}

/// Whether a tick of `dt_ms` makes the ability at index `i` run out of
/// duration (so that it leaves the active set).
pub open spec fn expires(r: AbilitiesResource, i: usize, dt_ms: u32) -> bool {
    &&& r.is_active(i)
    &&& r.available_abilities@[i as int].info.duration is Some
    &&& r.available_abilities@[i as int].current_state.progress_ms <= dt_ms
}

/// Advances the ability at `index` by `dt_ms` as `tick_spec` says, and
/// removes the index from the active set when its duration expired on this
/// tick.
pub fn update_progress_bar(abilities: &mut AbilitiesResource, index: usize, dt_ms: u32)
    requires
        old(abilities).wf(),
        index < old(abilities).available_abilities@.len(),
    ensures
        final(abilities).wf(),
        final(abilities).available_abilities@ == old(abilities).available_abilities@.update(
            index as int,
            tick_spec(
                old(abilities).available_abilities@[index as int],
                old(abilities).is_active(index),
                dt_ms,
            ).0,
        ),
        final(abilities).active_abilities@ == (if expires(*old(abilities), index, dt_ms) {
            remove_first_value(old(abilities).active_abilities@, index)
        } else {
            old(abilities).active_abilities@
        }),
{
    let active = contains_index(&abilities.active_abilities, index);
    let mut a = abilities.available_abilities[index];
    let expired = tick_ability(&mut a, active, dt_ms);
    abilities.available_abilities[index] = a;
    if expired {
        let _ = remove_first_found_item(&mut abilities.active_abilities, index);
    }
    proof {
        let r2 = *abilities;
        let r0 = *old(abilities);
        if expired {
            lemma_remove_first_value_dupfree(r0.active_abilities@, index);
            assert(!r2.is_active(index));
            assert forall|j: int|
                0 <= j < r2.active_abilities@.len() implies (#[trigger] r2.active_abilities@[j])
                    < r2.available_abilities@.len() by {
                let x = r2.active_abilities@[j];
                assert(r2.active_abilities@.contains(x));
                assert(x != index && r0.is_active(x));
                let q = choose|q: int|
                    0 <= q < r0.active_abilities@.len() && r0.active_abilities@[q] == x;
                assert(r0.active_abilities@[q] < r0.available_abilities@.len());
            }
        }
        assert forall|i: usize|
            i < r2.available_abilities@.len() implies (
        #[trigger] r2.available_abilities@[i as int]).wf(r2.is_active(i)) by {
            if i == index {
                if expired {
                    assert(!r2.is_active(index));
                } else {
                    assert(r2.is_active(index) == r0.is_active(index));
                }
            } else {
                assert(r2.available_abilities@[i as int] == r0.available_abilities@[i as int]);
                if expired {
                    assert(r2.is_active(i) == r0.is_active(i));
                } else {
                    assert(r2.is_active(i) == r0.is_active(i));
                }
            }
        }
    }
}

/// One frame of the ability engine: every ability advances by `dt_ms`
/// following `tick_spec`, and exactly the indices whose duration expired on
/// this tick leave the active set, the order of the others kept.
pub fn tick(abilities: &mut AbilitiesResource, dt_ms: u32)
    requires
        old(abilities).wf(),
    ensures
        final(abilities).wf(),
        final(abilities).available_abilities@.len() == old(abilities).available_abilities@.len(),
        forall|i: usize|
            i < old(abilities).available_abilities@.len() ==> final(abilities).available_abilities@[i as int] == tick_spec(
                old(abilities).available_abilities@[i as int],
                old(abilities).is_active(i),
                dt_ms,
            ).0,
        final(abilities).active_abilities@ == old(abilities).active_abilities@.filter(
            |v: usize| !expires(*old(abilities), v, dt_ms),
        ),
{
    let ghost r0 = *abilities;
    let ghost pred = |v: usize| !expires(r0, v, dt_ms);

    let mut new_active: Vec<usize> = Vec::new();
    let mut j: usize = 0;
    while j < abilities.active_abilities.len()
        invariant
            *abilities == r0,
            r0.wf(),
            j <= r0.active_abilities@.len(),
            pred == (|v: usize| !expires(r0, v, dt_ms)),
            new_active@ == r0.active_abilities@.subrange(0, j as int).filter(pred),
        decreases r0.active_abilities@.len() - j,
    {
        let v = abilities.active_abilities[j];
        assert(r0.active_abilities@[j as int] == v);
        assert(r0.is_active(v));
        let a = &abilities.available_abilities[v];
        let keep = match a.info.duration {
            Some(_) => a.current_state.progress_ms > dt_ms,
            None => true,
        };
        assert(keep == pred(v));
        if keep {
            new_active.push(v);
        }
        proof {
            let pre = r0.active_abilities@.subrange(0, j as int);
            assert(r0.active_abilities@.subrange(0, j + 1) =~= pre.push(v));
            pre.lemma_filter_push(v, pred);
        }
        j += 1;
    }
    proof {
        assert(r0.active_abilities@.subrange(0, r0.active_abilities@.len() as int)
            =~= r0.active_abilities@);
    }

    let mut i: usize = 0;
    while i < abilities.available_abilities.len()
        invariant
            r0.wf(),
            abilities.active_abilities@ == r0.active_abilities@,
            abilities.available_abilities@.len() == r0.available_abilities@.len(),
            i <= r0.available_abilities@.len(),
            forall|q: usize|
                q < i ==> abilities.available_abilities@[q as int] == tick_spec(
                    r0.available_abilities@[q as int],
                    r0.is_active(q),
                    dt_ms,
                ).0,
            forall|q: usize|
                i <= q < r0.available_abilities@.len() ==> abilities.available_abilities@[q as int]
                    == r0.available_abilities@[q as int],
        decreases r0.available_abilities@.len() - i,
    {
        let active = contains_index(&abilities.active_abilities, i);
        let mut a = abilities.available_abilities[i];
        assert(a.wf(active)) by {
            assert(r0.available_abilities@[i as int].wf(r0.is_active(i)));
        }
        let _ = tick_ability(&mut a, active, dt_ms);
        abilities.available_abilities[i] = a;
        i += 1;
    }

    abilities.active_abilities = new_active;

    proof {
        let r2 = *abilities;
        broadcast use vstd::seq_lib::group_filter_ensures;

        assert forall|x: usize| r2.is_active(x) implies r0.is_active(x) && pred(x) by {
            let s = r0.active_abilities@;
            let jx = choose|jx: int| 0 <= jx < s.filter(pred).len() && s.filter(pred)[jx] == x;
            s.lemma_filter_pred(pred, jx);
            s.lemma_filter_contains_rev(pred, x);
        }
        assert forall|x: usize| r0.is_active(x) && pred(x) implies r2.is_active(x) by {
            let s = r0.active_abilities@;
            let jx = choose|jx: int| 0 <= jx < s.len() && s[jx] == x;
            s.lemma_filter_contains(pred, jx);
        }
        assert(no_dups(r2.active_abilities@)) by {
            let s = r0.active_abilities@;
            let f = s.filter(pred);
            assert forall|a: int, b: int| 0 <= a < b < f.len() implies f[a] != f[b] by {
                lemma_filter_dupfree(s, pred);
            }
        }
        assert forall|i2: usize|
            i2 < r2.available_abilities@.len() implies (
        #[trigger] r2.available_abilities@[i2 as int]).wf(r2.is_active(i2)) by {
            let was_active = r0.is_active(i2);
            let stepped = tick_spec(r0.available_abilities@[i2 as int], was_active, dt_ms);
            assert(r2.available_abilities@[i2 as int] == stepped.0);
            assert(r0.available_abilities@[i2 as int].wf(was_active));
            lemma_tick_spec_wf(r0.available_abilities@[i2 as int], was_active, dt_ms);
            if r2.is_active(i2) {
                assert(was_active && pred(i2));
                assert(!stepped.1);
            }
        }
    }
}

/// A duplicate-free sequence stays duplicate-free under `filter`.
pub proof fn lemma_filter_dupfree(s: Seq<usize>, pred: spec_fn(usize) -> bool)
    requires
        no_dups(s),
    ensures
        no_dups(s.filter(pred)),
    decreases s.len(),
{
    reveal(Seq::filter);
    if s.len() > 0 {
        let head = s.drop_last();
        lemma_filter_dupfree(head, pred);
        if pred(s.last()) {
            let f = head.filter(pred);
            assert(!f.contains(s.last())) by {
                if f.contains(s.last()) {
                    head.lemma_filter_contains_rev(pred, s.last());
                    let q = choose|q: int| 0 <= q < head.len() && head[q] == s.last();
                    assert(s[q] == s[s.len() - 1]);
                }
            }
            assert forall|a: int, b: int|
                0 <= a < b < f.push(s.last()).len() implies f.push(s.last())[a] != f.push(
                s.last(),
            )[b] by {
                if b < f.len() {
                } else {
                    assert(f.push(s.last())[b] == s.last());
                    assert(f[a] != s.last());
                }
            }
        }
    }
}

/// `tick_spec` preserves well-formedness: the stepped ability is within its
/// new full value, for the activity it has after the tick.
pub proof fn lemma_tick_spec_wf(a: Ability, active: bool, dt_ms: u32)
    requires
        a.wf(active),
    ensures
        tick_spec(a, active, dt_ms).0.wf(active && !tick_spec(a, active, dt_ms).1),
        tick_spec(a, active, dt_ms).0.wf(false) || (active && !tick_spec(a, active, dt_ms).1),
{
}

/// Milliseconds covered by a run of ticks.
pub open spec fn total_ms(dts: Seq<u32>) -> int
    decreases dts.len(),
{
    if dts.len() == 0 {
        0
    } else {
        dts[0] + total_ms(dts.subrange(1, dts.len() as int))
    }
}

/// The ability after a run of recharge ticks (inactive throughout).
pub open spec fn recharged(a: Ability, dts: Seq<u32>) -> Ability
    decreases dts.len(),
{
    if dts.len() == 0 {
        a
    } else {
        recharged(tick_spec(a, false, dts[0]).0, dts.subrange(1, dts.len() as int))
    }
}

/// Charge monotonicity: one recharge tick of an inactive ability whose
/// uses are not exhausted strictly increases its progress while it is
/// below full charge, and never pushes it beyond full charge.
pub proof fn lemma_charge_monotonic(a: Ability, dt_ms: u32)
    requires
        a.wf(false),
        !a.maxed_out(),
        1 <= dt_ms,
    ensures
        a.current_state.progress_ms < a.info.charge_ms_spec()
            ==> tick_spec(a, false, dt_ms).0.current_state.progress_ms
            > a.current_state.progress_ms,
        tick_spec(a, false, dt_ms).0.current_state.progress_ms <= a.info.charge_ms_spec(),
        a.current_state.progress_ms == a.info.charge_ms_spec()
            ==> tick_spec(a, false, dt_ms).0.current_state.progress_ms
            == a.info.charge_ms_spec(),
{
}

/// Charge saturation: over any run of recharge ticks of an inactive
/// ability whose uses are not exhausted, progress never shrinks and never
/// passes full charge, and once the ticks cover the missing charge time
/// the ability sits exactly at full charge and stays there.
pub proof fn lemma_charge_saturates(a: Ability, dts: Seq<u32>)
    requires
        a.wf(false),
        !a.maxed_out(),
    ensures
        recharged(a, dts).info == a.info,
        recharged(a, dts).current_state.uses == a.current_state.uses,
        a.current_state.progress_ms <= recharged(a, dts).current_state.progress_ms
            <= a.info.charge_ms_spec(),
        total_ms(dts) >= a.info.charge_ms_spec() - a.current_state.progress_ms ==> recharged(
            a,
            dts,
        ).current_state.progress_ms == a.info.charge_ms_spec(),
    decreases dts.len(),
{
    if dts.len() > 0 {
        let a1 = tick_spec(a, false, dts[0]).0;
        lemma_tick_spec_wf(a, false, dts[0]);
        lemma_charge_saturates(a1, dts.subrange(1, dts.len() as int));
    }
}

/// The ability state after a run of ticks that starts while the ability is
/// active with a duration: it counts down until the tick on which its
/// remaining time runs out, and then stops (the engine removes it from the
/// active set on that tick, so later ticks recharge it instead).  The
/// second component tells whether that expiry tick has happened.
pub open spec fn count_down(a: Ability, dts: Seq<u32>) -> (Ability, bool)
    decreases dts.len(),
{
    if dts.len() == 0 {
        (a, false)
    } else {
        let stepped = tick_spec(a, true, dts[0]);
        if stepped.1 {
            (stepped.0, true)
        } else {
            count_down(stepped.0, dts.subrange(1, dts.len() as int))
        }
    }
}

/// Duration countdown: an active ability with a duration expires exactly
/// when the ticks since activation cover its remaining time; on expiry its
/// progress is 0 (and the engine removes it from the active set), and
/// until then its remaining time has gone down by exactly the elapsed
/// milliseconds.
pub proof fn lemma_duration_countdown(a: Ability, dts: Seq<u32>)
    requires
        a.wf(true),
        a.info.duration is Some,
    ensures
        count_down(a, dts).1 <==> (dts.len() > 0 && total_ms(dts)
            >= a.current_state.progress_ms),
        count_down(a, dts).1 ==> count_down(a, dts).0.current_state.progress_ms == 0,
        !count_down(a, dts).1 ==> count_down(a, dts).0.current_state.progress_ms
            == a.current_state.progress_ms - total_ms(dts),
    decreases dts.len(),
{
    if dts.len() > 0 {
        let stepped = tick_spec(a, true, dts[0]);
        let rest = dts.subrange(1, dts.len() as int);
        lemma_total_ms_nonneg(rest);
        if !stepped.1 {
            lemma_tick_spec_wf(a, true, dts[0]);
            lemma_duration_countdown(stepped.0, rest);
        }
    }
}

/// A run of ticks covers a non-negative number of milliseconds.
pub proof fn lemma_total_ms_nonneg(dts: Seq<u32>)
    ensures
        total_ms(dts) >= 0,
    decreases dts.len(),
{
    if dts.len() > 0 {
        lemma_total_ms_nonneg(dts.subrange(1, dts.len() as int));
    }
}

/// Max-uses lockout: once an ability's uses have reached its declared
/// maximum, every recharge tick forces its progress to 0 and leaves it
/// maxed out, so it can never reach full charge again and `use_ability`
/// stays a no-op forever.
pub proof fn lemma_max_uses_lockout(a: Ability, dt_ms: u32)
    requires
        a.wf(false),
        a.maxed_out(),
    ensures
        tick_spec(a, false, dt_ms).0.current_state.progress_ms == 0,
        tick_spec(a, false, dt_ms).0.maxed_out(),
        tick_spec(a, false, dt_ms).0.current_state.progress_ms < a.info.charge_ms_spec(),
{
}

} // verus!
