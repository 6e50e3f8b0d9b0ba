//! The settings kept in `config.toml`, and what the knob keys and the knob
//! press are bound to.

use vstd::prelude::*;
use crate::text::{eq_ignore_ascii, eq_ignore_ascii_case, lemma_eq_ignore_ascii_equivalence};

verus! {

/// The smallest volume step, in percent.
pub const STEP_MIN: u8 = 1;

/// The largest volume step, in percent.
pub const STEP_MAX: u8 = 25;

/// The Win32 virtual-key code of the volume down key.
pub const VK_VOLUME_DOWN: u16 = 0xAE;

/// The Win32 virtual-key code of the volume up key.
pub const VK_VOLUME_UP: u16 = 0xAF;

/// The Win32 virtual-key code of the play / pause key, which the knob sends
/// when it is pressed.
pub const VK_MEDIA_PLAY_PAUSE: u16 = 0xB3;

/// Only the clockwise direction is stored: the counter-clockwise one is
/// always the other key, which keeps the two dropdowns from ever describing
/// an impossible mapping.
#[derive(Debug, Clone, Copy, PartialEq, Eq, Structural)]
pub enum KnobKey {
    VolumeUp,
    VolumeDown,
}

/// The other key of the pair.
pub open spec fn opposite_of(key: KnobKey) -> KnobKey {
    match key {
        KnobKey::VolumeUp => KnobKey::VolumeDown,
        KnobKey::VolumeDown => KnobKey::VolumeUp,
    }
}

/// The position of a key in the dropdown, which lists volume up first.
pub open spec fn knob_index(key: KnobKey) -> i32 {
    match key {
        KnobKey::VolumeUp => 0,
        KnobKey::VolumeDown => 1,
    }
}

/// The key at a dropdown position; anything but the second entry, a typed
/// value included, reads as volume up.
pub open spec fn knob_at(index: i32) -> KnobKey {
    if index == 1 {
        KnobKey::VolumeDown
    } else {
        KnobKey::VolumeUp
    }
}

impl KnobKey {
    pub fn virtual_key(self) -> (res: u16)
        ensures
            res == (match self {
                KnobKey::VolumeUp => VK_VOLUME_UP,
                KnobKey::VolumeDown => VK_VOLUME_DOWN,
            }),
    {
        match self {
            KnobKey::VolumeUp => VK_VOLUME_UP,
            KnobKey::VolumeDown => VK_VOLUME_DOWN,
        }
    }

    pub fn opposite(self) -> (res: KnobKey)
        ensures
            res == opposite_of(self),
    {
        match self {
            KnobKey::VolumeUp => KnobKey::VolumeDown,
            KnobKey::VolumeDown => KnobKey::VolumeUp,
        }
    }

    /// Index into the dropdown, which lists volume up first.
    pub fn index(self) -> (res: i32)
        ensures
            res == knob_index(self),
    {
        match self {
            KnobKey::VolumeUp => 0,
            KnobKey::VolumeDown => 1,
        }
    }

    pub fn from_index(index: i32) -> (res: KnobKey)
        ensures
            res == knob_at(index),
    {
        if index == 1 {
            KnobKey::VolumeDown
        } else {
            KnobKey::VolumeUp
        }
    }
}

/// What a press of the knob does.
#[derive(Debug, Clone, Copy, PartialEq, Eq, Structural)]
pub enum PressAction {
    MuteToggle,
    NextTarget,
    /// Let the key through, so the focused player pauses as it normally would.
    PassThrough,
    /// Swallow the key and do nothing.
    Disabled,
}

/// The position of an action in the dropdown, in declaration order.
pub open spec fn press_index(action: PressAction) -> i32 {
    match action {
        PressAction::MuteToggle => 0,
        PressAction::NextTarget => 1,
        PressAction::PassThrough => 2,
        PressAction::Disabled => 3,
    }
}

/// The action at a dropdown position; anything out of range reads as muting.
pub open spec fn press_at(index: i32) -> PressAction {
    if index == 1 {
        PressAction::NextTarget
    } else if index == 2 {
        PressAction::PassThrough
    } else if index == 3 {
        PressAction::Disabled
    } else {
        PressAction::MuteToggle
    }
}

impl PressAction {
    /// The key a press of the knob arrives as.
    pub fn virtual_key() -> (res: u16)
        ensures
            res == VK_MEDIA_PLAY_PAUSE,
    {
        VK_MEDIA_PLAY_PAUSE
    }

    /// Index into the dropdown, in declaration order.
    pub fn index(self) -> (res: i32)
        ensures
            res == press_index(self),
    {
        match self {
            PressAction::MuteToggle => 0,
            PressAction::NextTarget => 1,
            PressAction::PassThrough => 2,
            PressAction::Disabled => 3,
        }
    }

    pub fn from_index(index: i32) -> (res: PressAction)
        ensures
            res == press_at(index),
    {
        match index {
            1 => PressAction::NextTarget,
            2 => PressAction::PassThrough,
            3 => PressAction::Disabled,
            _ => PressAction::MuteToggle,
        }
    }
}

/// Flipping a key twice gives it back, and a key is never its own opposite.
pub proof fn lemma_opposite_involution(key: KnobKey)
    ensures
        opposite_of(opposite_of(key)) == key,
        opposite_of(key) != key,
{
}

/// A key read back from its dropdown position is the same key, and each
/// position the dropdown has names a different key.
pub proof fn lemma_knob_index_round_trip(key: KnobKey, other: KnobKey)
    ensures
        knob_at(knob_index(key)) == key,
        0 <= knob_index(key) <= 1,
        knob_index(key) == knob_index(other) ==> key == other,
{
}

/// An action read back from its dropdown position is the same action, and
/// each position names a different action.
pub proof fn lemma_press_index_round_trip(action: PressAction, other: PressAction)
    ensures
        press_at(press_index(action)) == action,
        0 <= press_index(action) <= 3,
        press_index(action) == press_index(other) ==> action == other,
{
}

/// The whole contents of `config.toml`.
pub struct Settings {
    /// Executable name of the application the knob currently drives.
    pub target: String,
    /// Every application the user has picked, cycled through by `NextTarget`.
    pub targets: Vec<String>,
    /// The key that raises the volume; the other one lowers it.
    pub raise_key: KnobKey,
    pub step_percent: u8,
    pub press_action: PressAction,
    pub launch_on_startup: bool,
}

/// The settings as plain values.
pub struct SettingsView {
    pub target: Seq<char>,
    pub targets: Seq<Seq<char>>,
    pub raise_key: KnobKey,
    pub step_percent: u8,
    pub press_action: PressAction,
    pub launch_on_startup: bool,
}

/// The texts of a list of strings.
pub open spec fn texts(v: Seq<String>) -> Seq<Seq<char>> {
    v.map_values(|s: String| s@)
}

impl View for Settings {
    type V = SettingsView;

    open spec fn view(&self) -> SettingsView {
        SettingsView {
            target: self.target@,
            targets: texts(self.targets@),
            raise_key: self.raise_key,
            step_percent: self.step_percent,
            press_action: self.press_action,
            launch_on_startup: self.launch_on_startup,
        }
    }
}

/// Whether some name in `names` matches `name` up to ASCII case.
pub open spec fn knows(names: Seq<Seq<char>>, name: Seq<char>) -> bool {
    exists|i: int| 0 <= i < names.len() && eq_ignore_ascii(#[trigger] names[i], name)
}

/// `names` with `name` added at the end, unless it is empty or already
/// there up to ASCII case.
pub open spec fn remembered(names: Seq<Seq<char>>, name: Seq<char>) -> Seq<Seq<char>> {
    if name.len() == 0 || knows(names, name) {
        names
    } else {
        names.push(name)
    }
}

/// The position of the first name equal to `name`, or the length when none is.
pub open spec fn position(names: Seq<Seq<char>>, name: Seq<char>) -> nat
    decreases names.len(),
{
    if names.len() == 0 || names[0] == name {
        0
    } else {
        1 + position(names.skip(1), name)
    }
}

/// The target after the current one, wrapping around, or `None` when fewer
/// than two are configured. The current target is found by exact equality, the
/// first match counting; one that is not in the list starts the cycle at the
/// first entry.
pub open spec fn next_of(target: Seq<char>, targets: Seq<Seq<char>>) -> Option<Seq<char>> {
    if targets.len() < 2 {
        None
    } else {
        let p = position(targets, target) as int;
        let next: int = if p < targets.len() {
            (p + 1) % (targets.len() as int)
        } else {
            0
        };
        Some(targets[next])
    }
}

/// The step clamped into `STEP_MIN..=STEP_MAX`.
pub open spec fn clamp_step(step: u8) -> u8 {
    if step < STEP_MIN {
        STEP_MIN
    } else if step > STEP_MAX {
        STEP_MAX
    } else {
        step
    }
}

/// A name that is not empty.
pub open spec fn non_empty(name: Seq<char>) -> bool {
    name.len() > 0
}

/// `names` without the empty ones.
pub open spec fn kept_names(names: Seq<Seq<char>>) -> Seq<Seq<char>> {
    names.filter(|n: Seq<char>| non_empty(n))
}

/// What a hand-edited file is brought back to: the step clamped, empty
/// names dropped, the current target remembered.
pub open spec fn normalize(v: SettingsView) -> SettingsView {
    SettingsView {
        step_percent: clamp_step(v.step_percent),
        targets: remembered(kept_names(v.targets), v.target),
        ..v
    }
}

/// Settings that normalizing leaves alone.
pub open spec fn well_formed(v: SettingsView) -> bool {
    &&& STEP_MIN <= v.step_percent <= STEP_MAX
    &&& forall|i: int| 0 <= i < v.targets.len() ==> non_empty(#[trigger] v.targets[i])
    &&& v.target.len() == 0 || knows(v.targets, v.target)
}

/// The settings a first run starts from.
pub open spec fn default_settings() -> SettingsView {
    SettingsView {
        target: Seq::empty(),
        targets: Seq::empty(),
        raise_key: KnobKey::VolumeUp,
        step_percent: 5,
        press_action: PressAction::MuteToggle,
        launch_on_startup: false,
    }
}

impl Default for Settings {
    fn default() -> (res: Settings)
        ensures
            res@ == default_settings(),
    {
        let res = Settings {
            target: String::new(),
            targets: Vec::new(),
            raise_key: KnobKey::VolumeUp,
            step_percent: 5,
            press_action: PressAction::MuteToggle,
            launch_on_startup: false,
        };
        assert(texts(res.targets@) =~= Seq::<Seq<char>>::empty());
        res
    }
}

impl Settings {
    pub fn lower_key(&self) -> (res: KnobKey)
        ensures
            res == opposite_of(self.raise_key),
    {
        self.raise_key.opposite()
    }

    /// The target after the current one, wrapping around, or `None` when
    /// fewer than two are configured.
    pub fn next_target(&self) -> (res: Option<&str>)
        ensures
            match res {
                Some(name) => next_of(self@.target, self@.targets) == Some(name@),
                None => next_of(self@.target, self@.targets) is None,
            },
    {
        let n: usize = self.targets.len();
        if n < 2 {
            return None;
        }
        let ghost names = self@.targets;
        let mut i: usize = 0;
        assert(names.skip(0) =~= names);
        while i < n && self.targets[i] != self.target
            invariant
                n == self.targets@.len(),
                names == self@.targets,
                i <= n,
                position(names, self@.target) == i + position(names.skip(i as int), self@.target),
            decreases n - i,
        {
            assert(names[i as int] == self.targets@[i as int]@);
            assert(names.skip(i as int)[0] == names[i as int]);
            assert(names.skip(i as int).skip(1) =~= names.skip(i + 1));
            i = i + 1;
        }
        assert(position(names.skip(i as int), self@.target) == 0) by {
            if i < n {
                assert(names.skip(i as int)[0] == names[i as int]);
            }
        }
        let next: usize = if i < n {
            (i + 1) % n
        } else {
            0
        };
        Some(self.targets[next].as_str())
    }

    /// Adds `name` to the remembered targets unless it is empty or already
    /// known up to ASCII case.
    pub fn remember_target(&mut self, name: &str)
        ensures
            final(self)@ == (SettingsView { targets: remembered(old(self)@.targets, name@), ..old(self)@ }),
    {
        if name.is_empty() {
            return;
        }
        let n: usize = self.targets.len();
        let ghost names = old(self)@.targets;
        let mut known: bool = false;
        let mut i: usize = 0;
        while i < n && !known
            invariant
                n == self.targets@.len(),
                self == old(self),
                names == texts(self.targets@),
                i <= n,
                known ==> knows(names, name@),
                !known ==> forall|j: int| 0 <= j < i ==> !eq_ignore_ascii(#[trigger] names[j], name@),
            decreases n - i + (if known { 0int } else { 1int }),
        {
            if eq_ignore_ascii_case(self.targets[i].as_str(), name) {
                assert(names[i as int] == self.targets@[i as int]@);
                known = true;
            } else {
                assert(names[i as int] == self.targets@[i as int]@);
                i = i + 1;
            }
        }
        if !known {
            self.targets.push(name.to_owned());
            assert(texts(self.targets@) =~= names.push(name@));
        }
    }

    /// Clamps anything a hand-edited config file could have put out of range.
    pub fn normalized(self) -> (res: Settings)
        ensures
            res@ == normalize(self@),
    {
        let mut res = self;
        res.step_percent = if res.step_percent < STEP_MIN {
            STEP_MIN
        } else if res.step_percent > STEP_MAX {
            STEP_MAX
        } else {
            res.step_percent
        };
        let ghost names = texts(res.targets@);
        let mut kept: Vec<String> = Vec::new();
        let n: usize = res.targets.len();
        for i in 0..n
            invariant
                n == res.targets@.len(),
                names == texts(res.targets@),
                texts(kept@) == kept_names(names.take(i as int)),
        {
            proof {
                reveal_with_fuel(Seq::<_>::filter, 1);
                assert(names.take(i + 1).drop_last() =~= names.take(i as int));
            }
            let name: &String = &res.targets[i];
            assert(names[i as int] == name@);
            assert(names.take(i + 1).last() == name@);
            if !name.as_str().is_empty() {
                kept.push(name.clone());
                assert(texts(kept@) =~= kept_names(names.take(i as int)).push(name@));
            }
        }
        assert(names.take(n as int) =~= names);
        res.targets = kept;
        let target: String = res.target.clone();
        res.remember_target(target.as_str());
        res
    }
}

/// Remembering a name twice is the same as remembering it once.
pub proof fn lemma_remember_idempotent(names: Seq<Seq<char>>, name: Seq<char>)
    ensures
        remembered(remembered(names, name), name) == remembered(names, name),
{
    if name.len() > 0 && !knows(names, name) {
        let grown = names.push(name);
        lemma_eq_ignore_ascii_equivalence(name, name, name);
        assert(eq_ignore_ascii(grown[names.len() as int], name));
        assert(knows(grown, name));
    }
}

/// Remembering never forgets: the names already there stay, in order; a
/// non-empty name is known afterwards; and a name is added at the end only
/// when no remembered name matches it up to ASCII case.
pub proof fn lemma_remembered_grows(names: Seq<Seq<char>>, name: Seq<char>)
    ensures
        names.is_prefix_of(remembered(names, name)),
        remembered(names, name).len() <= names.len() + 1,
        name.len() > 0 ==> knows(remembered(names, name), name),
        remembered(names, name).len() == names.len() + 1 <==> (name.len() > 0 && !knows(
            names,
            name,
        )),
        remembered(names, name).len() == names.len() + 1 ==> remembered(names, name).last()
            == name,
{
    lemma_eq_ignore_ascii_equivalence(name, name, name);
    if name.len() > 0 && !knows(names, name) {
        let grown = names.push(name);
        assert(eq_ignore_ascii(grown[names.len() as int], name));
    }
    assert(names.is_prefix_of(remembered(names, name))) by {
        assert(remembered(names, name).take(names.len() as int) =~= names);
    }
}

/// A target that is not among the remembered ones starts the cycle at the
/// first of them; with fewer than two remembered targets there is nothing to
/// cycle to.
pub proof fn lemma_next_of_unknown(target: Seq<char>, targets: Seq<Seq<char>>)
    ensures
        targets.len() < 2 <==> next_of(target, targets) is None,
        targets.len() >= 2 && (forall|j: int| 0 <= j < targets.len() ==> #[trigger] targets[j]
            != target) ==> next_of(target, targets) == Some(targets[0]),
{
    if targets.len() >= 2 && (forall|j: int| 0 <= j < targets.len() ==> #[trigger] targets[j]
        != target) {
        lemma_position_absent(targets, target);
    }
}

proof fn lemma_position_absent(names: Seq<Seq<char>>, name: Seq<char>)
    requires
        forall|j: int| 0 <= j < names.len() ==> #[trigger] names[j] != name,
    ensures
        position(names, name) == names.len(),
    decreases names.len(),
{
    if names.len() > 0 {
        let rest = names.skip(1);
        assert forall|j: int| 0 <= j < rest.len() implies #[trigger] rest[j] != name by {
            assert(rest[j] == names[j + 1]);
        }
        assert(names[0] != name);
        lemma_position_absent(rest, name);
    }
}

/// Filtering a list whose names are all non-empty leaves it as it was.
proof fn lemma_filter_all_kept(names: Seq<Seq<char>>)
    requires
        forall|i: int| 0 <= i < names.len() ==> non_empty(#[trigger] names[i]),
    ensures
        kept_names(names) == names,
    decreases names.len(),
{
    reveal_with_fuel(Seq::<_>::filter, 1);
    if names.len() > 0 {
        let front = names.drop_last();
        assert forall|i: int| 0 <= i < front.len() implies non_empty(#[trigger] front[i]) by {
            assert(front[i] == names[i]);
        }
        lemma_filter_all_kept(front);
        assert(non_empty(names.last()));
        assert(front.push(names.last()) =~= names);
    } else {
        assert(kept_names(names) =~= names);
    }
}

/// Every name a filter keeps satisfies it.
proof fn lemma_filter_non_empty(names: Seq<Seq<char>>)
    ensures
        forall|i: int| 0 <= i < kept_names(names).len() ==> non_empty(#[trigger] kept_names(names)[i]),
{
    let kept = kept_names(names);
    broadcast use vstd::seq_lib::group_filter_ensures;
    assert forall|i: int| 0 <= i < kept.len() implies non_empty(#[trigger] kept[i]) by {
        assert(kept.contains(kept[i]));
    }
}

/// Normalized settings are well formed: the step is in range, no name is
/// empty and a chosen target is among the remembered ones.
pub proof fn lemma_normalize_well_formed(v: SettingsView)
    ensures
        well_formed(normalize(v)),
{
    let kept = kept_names(v.targets);
    lemma_filter_non_empty(v.targets);
    let out = normalize(v);
    assert forall|i: int| 0 <= i < out.targets.len() implies non_empty(#[trigger] out.targets[i]) by {
        if i < kept.len() {
            assert(out.targets[i] == kept[i]);
        }
    }
    if v.target.len() > 0 && !knows(kept, v.target) {
        lemma_eq_ignore_ascii_equivalence(v.target, v.target, v.target);
        assert(eq_ignore_ascii(out.targets[kept.len() as int], v.target));
    }
}

/// Well-formed settings are left as they are by normalizing.
pub proof fn lemma_normalize_keeps_well_formed(v: SettingsView)
    requires
        well_formed(v),
    ensures
        normalize(v) == v,
{
    lemma_filter_all_kept(v.targets);
    assert(normalize(v).targets =~= v.targets);
}

/// Normalizing twice is the same as normalizing once.
pub proof fn lemma_normalize_idempotent(v: SettingsView)
    ensures
        normalize(normalize(v)) == normalize(v),
{
    lemma_normalize_well_formed(v);
    lemma_normalize_keeps_well_formed(normalize(v));
}

/// The first run's settings are already normalized.
pub proof fn lemma_default_well_formed()
    ensures
        well_formed(default_settings()),
{
}

/// When the current target is the `i`th remembered one and no earlier
/// entry has the same name, the next target is the one after it, wrapping
/// from the last to the first.
pub proof fn lemma_next_follows(targets: Seq<Seq<char>>, i: int)
    requires
        targets.len() >= 2,
        0 <= i < targets.len(),
        forall|j: int| 0 <= j < i ==> #[trigger] targets[j] != targets[i],
    ensures
        next_of(targets[i], targets) == Some(targets[(i + 1) % (targets.len() as int)]),
{
    lemma_position_first(targets, targets[i], i);
}

/// The target after `presses` presses of the knob set to cycle targets,
/// starting from `target`.
pub open spec fn after_presses(target: Seq<char>, targets: Seq<Seq<char>>, presses: nat) -> Seq<
    char,
>
    decreases presses,
{
    if presses == 0 {
        target
    } else {
        let before = after_presses(target, targets, (presses - 1) as nat);
        match next_of(before, targets) {
            Some(next) => next,
            None => before,
        }
    }
}

/// With at least two remembered targets, all different, pressing the knob
/// `k` times from the `i`th target lands on the `(i + k)`th, counted round
/// the list: every target is reached in turn and the cycle closes after as
/// many presses as there are targets.
pub proof fn lemma_cycle_visits_all(targets: Seq<Seq<char>>, i: int, presses: nat)
    requires
        targets.len() >= 2,
        0 <= i < targets.len(),
        forall|a: int, b: int|
            0 <= a < b < targets.len() ==> #[trigger] targets[a] != #[trigger] targets[b],
    ensures
        after_presses(targets[i], targets, presses) == targets[(i + presses) % (
        targets.len() as int)],
    decreases presses,
{
    let n = targets.len() as int;
    if presses == 0 {
        assert(i % n == i) by (nonlinear_arith)
            requires
                0 <= i < n,
        ;
    } else {
        lemma_cycle_visits_all(targets, i, (presses - 1) as nat);
        let j = (i + presses - 1) % n;
        assert(0 <= j < n) by (nonlinear_arith)
            requires
                n > 0,
                j == (i + presses - 1) % n,
        ;
        lemma_next_follows(targets, j);
        assert((j + 1) % n == (i + presses) % n) by {
            vstd::arithmetic::div_mod::lemma_add_mod_noop(i + presses - 1, 1, n);
            vstd::arithmetic::div_mod::lemma_small_mod(1nat, n as nat);
            vstd::arithmetic::div_mod::lemma_mod_twice(j, n);
        }
    }
}

proof fn lemma_position_first(names: Seq<Seq<char>>, name: Seq<char>, i: int)
    requires
        0 <= i < names.len(),
        names[i] == name,
        forall|j: int| 0 <= j < i ==> #[trigger] names[j] != name,
    ensures
        position(names, name) == i,
    decreases i,
{
    if i > 0 {
        let rest = names.skip(1);
        assert forall|j: int| 0 <= j < i - 1 implies #[trigger] rest[j] != name by {
            assert(rest[j] == names[j + 1]);
        }
        assert(names[0] != name);
        assert(rest[i - 1] == names[i]);
        lemma_position_first(rest, name, i - 1);
    }
}

} // verus!
