use vstd::prelude::*;

verus! {

/// A semantic input, independent of the physical key that produced it.
#[derive(Debug, Clone, Copy, PartialEq, Eq, Structural, Hash)]
pub enum Action {
    Select,
    Back,
    Up,
    Down,
    Left,
    Right,
}

/// Number of actions; `Action::index` ranges below it.
pub const ACTION_COUNT: usize = 6;

impl Action {
    pub open spec fn spec_index(self) -> int {
        match self {
            Action::Select => 0,
            Action::Back => 1,
            Action::Up => 2,
            Action::Down => 3,
            Action::Left => 4,
            Action::Right => 5,
        }
    }

    /// Position of the action in declaration order.
    pub fn index(&self) -> (r: usize)
        ensures
            r as int == self.spec_index(),
            r < ACTION_COUNT,
    {
        match self {
            Action::Select => 0,
            Action::Back => 1,
            Action::Up => 2,
            Action::Down => 3,
            Action::Left => 4,
            Action::Right => 5,
        }
    }
}

/// The key-to-action map that a list of bindings describes: a later binding of
/// the same key replaces an earlier one.
pub open spec fn bindings_map(bindings: Seq<(i32, Action)>) -> Map<i32, Action>
    decreases bindings.len(),
{
    if bindings.len() == 0 {
        Map::empty()
    } else {
        bindings_map(bindings.drop_last()).insert(bindings.last().0, bindings.last().1)
    }
}

/// The keys that a key-to-action map binds to `action`.
pub open spec fn keys_of(m: Map<i32, Action>, action: Action) -> Set<i32> {
    Set::new(|k: i32| m.contains_key(k) && m[k] == action)
}

/// Whether some key bound to `action` under `keys` is among `held`.
pub open spec fn keys_pressed(keys: Map<i32, Action>, held: Seq<i32>, action: Action) -> bool {
    exists|k: i32| keys_of(keys, action).contains(k) && held.contains(k)
}

/// Both directions of the binding between physical keys (scancodes) and actions.
pub struct KeyMap {
    entries: Vec<(i32, Action)>,
    keys_by_action: Vec<Vec<i32>>,
}

/// The map that a list of pairs with distinct keys describes.
pub open spec fn entries_map(entries: Seq<(i32, Action)>) -> Map<i32, Action> {
    Map::new(
        |k: i32| exists|i: int| 0 <= i < entries.len() && entries[i].0 == k,
        |k: i32| entries[choose|i: int| 0 <= i < entries.len() && entries[i].0 == k].1,
    )
}

pub open spec fn distinct_keys(entries: Seq<(i32, Action)>) -> bool {
    forall|i: int, j: int|
        0 <= i < entries.len() && 0 <= j < entries.len() && i != j ==> entries[i].0 != entries[j].0
}

impl KeyMap {
    /// The key-to-action map.
    pub closed spec fn view(&self) -> Map<i32, Action> {
        entries_map(self.entries@)
    }

    pub closed spec fn wf(&self) -> bool {
        &&& distinct_keys(self.entries@)
        &&& self.keys_by_action@.len() == ACTION_COUNT
        &&& forall|a: int| 0 <= a < ACTION_COUNT ==> {
            let keys = #[trigger] self.keys_by_action@[a]@;
            &&& keys.no_duplicates()
            &&& forall|k: i32| keys.contains(k) <==> (
                self.view().contains_key(k) && self.view()[k].spec_index() == a)
        }
    }

    proof fn lemma_entries_lookup(entries: Seq<(i32, Action)>, i: int)
        requires
            distinct_keys(entries),
            0 <= i < entries.len(),
        ensures
            entries_map(entries).contains_key(entries[i].0),
            entries_map(entries)[entries[i].0] == entries[i].1,
    {
        let k = entries[i].0;
        assert(exists|j: int| 0 <= j < entries.len() && entries[j].0 == k);
        let j = choose|j: int| 0 <= j < entries.len() && entries[j].0 == k;
        assert(j == i);
    }

    /// Builds the map from (scancode, action) bindings; a later binding of the
    /// same key replaces an earlier one.
    pub fn new(bindings: Vec<(i32, Action)>) -> (r: Self)
        ensures
            r.wf(),
            r@ == bindings_map(bindings@),
    {
        let mut entries: Vec<(i32, Action)> = Vec::new();
        let mut n: usize = 0;
        while n < bindings.len()
            invariant
                n <= bindings.len(),
                distinct_keys(entries@),
                entries_map(entries@) == bindings_map(bindings@.subrange(0, n as int)),
            decreases bindings.len() - n,
        {
            let (key, action) = bindings[n];
            let mut found: bool = false;
            let mut i: usize = 0;
            let ghost before = entries@;
            let ghost mut pos: int = 0;
            while i < entries.len()
                invariant
                    i <= entries.len(),
                    entries@.len() == before.len(),
                    distinct_keys(entries@),
                    !found ==> entries@ == before,
                    !found ==> forall|j: int| 0 <= j < i ==> entries@[j].0 != key,
                    found ==> 0 <= pos < before.len() && before[pos].0 == key
                        && entries@ == before.update(pos, (key, action)),
                decreases entries.len() - i,
            {
                if !found && entries[i].0 == key {
                    entries.set(i, (key, action));
                    found = true;
                    proof {
                        pos = i as int;
                    }
                    assert(distinct_keys(entries@));
                }
                i = i + 1;
            }
            let ghost prefix = bindings@.subrange(0, n as int + 1);
            assert(prefix.drop_last() == bindings@.subrange(0, n as int));
            assert(prefix.last() == (key, action));
            if !found {
                entries.push((key, action));
                proof {
                    pos = before.len() as int;
                }
                assert(distinct_keys(entries@));
            }
            assert(entries@[pos] == (key, action));
            assert(forall|j: int| 0 <= j < entries@.len() && j != pos ==> entries@[j] == before[j]);
            assert(entries_map(entries@) =~= entries_map(before).insert(key, action)) by {
                assert forall|k: i32| #[trigger] entries_map(entries@).contains_key(k)
                    == entries_map(before).insert(key, action).contains_key(k) by {
                    if k != key && entries_map(before).contains_key(k) {
                        let j = choose|j: int| 0 <= j < before.len() && before[j].0 == k;
                        assert(entries@[j] == before[j]);
                    }
                    if entries_map(entries@).contains_key(k) && k != key {
                        let j = choose|j: int| 0 <= j < entries@.len() && entries@[j].0 == k;
                        assert(entries@[j] == before[j]);
                    }
                    if k == key {
                        assert(entries@[pos].0 == k);
                    }
                }
                assert forall|k: i32| #[trigger] entries_map(entries@).contains_key(k) implies
                    entries_map(entries@)[k] == entries_map(before).insert(key, action)[k] by {
                    let j = choose|j: int| 0 <= j < entries@.len() && entries@[j].0 == k;
                    Self::lemma_entries_lookup(entries@, j);
                    if k != key {
                        assert(entries@[j] == before[j]);
                        Self::lemma_entries_lookup(before, j);
                    }
                }
            }
            n = n + 1;
        }
        assert(bindings@.subrange(0, bindings@.len() as int) == bindings@);
        let mut keys_by_action: Vec<Vec<i32>> = Vec::new();
        let mut a: usize = 0;
        while a < ACTION_COUNT
            invariant
                a <= ACTION_COUNT,
                distinct_keys(entries@),
                keys_by_action@.len() == a,
                forall|b: int| 0 <= b < a ==> {
                    let keys = #[trigger] keys_by_action@[b]@;
                    &&& keys.no_duplicates()
                    &&& forall|k: i32| keys.contains(k) <==> (
                        entries_map(entries@).contains_key(k)
                        && entries_map(entries@)[k].spec_index() == b)
                },
            decreases ACTION_COUNT - a,
        {
            let mut keys: Vec<i32> = Vec::new();
            let mut i: usize = 0;
            while i < entries.len()
                invariant
                    i <= entries.len(),
                    a < ACTION_COUNT,
                    distinct_keys(entries@),
                    keys@.no_duplicates(),
                    forall|k: i32| keys@.contains(k) <==> (exists|j: int|
                        0 <= j < i && entries@[j].0 == k && entries@[j].1.spec_index() == a),
                decreases entries.len() - i,
            {
                let (key, action) = entries[i];
                if action.index() == a {
                    proof {
                        if keys@.contains(key) {
                            let j = choose|j: int|
                                0 <= j < i && entries@[j].0 == key && entries@[j].1.spec_index() == a;
                            assert(false);
                        }
                    }
                    let ghost old_keys = keys@;
                    keys.push(key);
                    assert(keys@ == old_keys.push(key));
                    assert forall|k: i32| keys@.contains(k) <==> (exists|j: int|
                        0 <= j < i + 1 && entries@[j].0 == k && entries@[j].1.spec_index() == a) by {
                        if k == key {
                            assert(keys@[keys@.len() - 1] == k);
                            assert(entries@[i as int].0 == k && entries@[i as int].1.spec_index() == a);
                        } else if keys@.contains(k) {
                            let m = choose|m: int| 0 <= m < keys@.len() && keys@[m] == k;
                            assert(m < old_keys.len());
                            assert(old_keys[m] == k);
                            assert(old_keys.contains(k));
                        }
                        if exists|j: int| 0 <= j < i + 1 && entries@[j].0 == k
                            && entries@[j].1.spec_index() == a {
                            let j = choose|j: int| 0 <= j < i + 1 && entries@[j].0 == k
                                && entries@[j].1.spec_index() == a;
                            if j < i {
                                assert(old_keys.contains(k));
                                let m = choose|m: int| 0 <= m < old_keys.len() && old_keys[m] == k;
                                assert(keys@[m] == k);
                            }
                        }
                    }
                } else {
                    assert forall|k: i32| keys@.contains(k) <==> (exists|j: int|
                        0 <= j < i + 1 && entries@[j].0 == k && entries@[j].1.spec_index() == a) by {
                        if exists|j: int| 0 <= j < i + 1 && entries@[j].0 == k
                            && entries@[j].1.spec_index() == a {
                            let j = choose|j: int| 0 <= j < i + 1 && entries@[j].0 == k
                                && entries@[j].1.spec_index() == a;
                            assert(j < i);
                        }
                    }
                }
                i = i + 1;
            }
            proof {
                assert forall|k: i32| keys@.contains(k) <==> (
                    entries_map(entries@).contains_key(k)
                    && entries_map(entries@)[k].spec_index() == a) by {
                    if keys@.contains(k) {
                        let j = choose|j: int|
                            0 <= j < entries@.len() && entries@[j].0 == k && entries@[j].1.spec_index() == a;
                        Self::lemma_entries_lookup(entries@, j);
                    }
                    if entries_map(entries@).contains_key(k) {
                        let j = choose|j: int| 0 <= j < entries@.len() && entries@[j].0 == k;
                        Self::lemma_entries_lookup(entries@, j);
                    }
                }
            }
            keys_by_action.push(keys);
            a = a + 1;
        }
        KeyMap { entries, keys_by_action }
    }

    /// The action bound to `key`, if any.
    pub fn get_action(&self, key: i32) -> (r: Option<Action>)
        requires
            self.wf(),
        ensures
            r == (if self@.contains_key(key) { Some(self@[key]) } else { None::<Action> }),
    {
        let mut i: usize = 0;
        while i < self.entries.len()
            invariant
                i <= self.entries@.len(),
                distinct_keys(self.entries@),
                forall|j: int| 0 <= j < i ==> self.entries@[j].0 != key,
            decreases self.entries.len() - i,
        {
            if self.entries[i].0 == key {
                proof {
                    Self::lemma_entries_lookup(self.entries@, i as int);
                }
                return Some(self.entries[i].1);
            }
            i = i + 1;
        }
        None
    }

    /// The keys bound to `action`, without repetition and in no particular
    /// order; `None` when no key is bound to it.
    pub fn get_keys(&self, action: Action) -> (r: Option<&Vec<i32>>)
        requires
            self.wf(),
        ensures
            r is None <==> keys_of(self@, action).is_empty(),
            r matches Some(keys) ==> keys@.no_duplicates() && keys@.to_set() == keys_of(self@, action),
    {
        let keys = &self.keys_by_action[action.index()];
        proof {
            let a = action.spec_index();
            assert(keys@ == self.keys_by_action@[a]@);
            assert forall|k: i32| keys@.contains(k) <==> keys_of(self@, action).contains(k) by {
                if self@.contains_key(k) {
                    let b = self@[k];
                    assert(b.spec_index() == a ==> b == action);
                }
            }
            assert(keys@.to_set() =~= keys_of(self@, action));
        }
        if keys.len() == 0 {
            proof {
                assert(keys_of(self@, action) =~= Set::empty());
            }
            None
        } else {
            proof {
                assert(keys_of(self@, action).contains(keys@[0]));
            }
            Some(keys)
        }
    }
}

/// Keycode of the up arrow key.
pub const KEYCODE_UP: i32 = 1073741906;
/// Keycode of the down arrow key.
pub const KEYCODE_DOWN: i32 = 1073741905;
/// Keycode of the left arrow key.
pub const KEYCODE_LEFT: i32 = 1073741904;
/// Keycode of the right arrow key.
pub const KEYCODE_RIGHT: i32 = 1073741903;
/// Keycode of the W key.
pub const KEYCODE_W: i32 = 119;
/// Keycode of the S key.
pub const KEYCODE_S: i32 = 115;
/// Keycode of the A key.
pub const KEYCODE_A: i32 = 97;
/// Keycode of the D key.
pub const KEYCODE_D: i32 = 100;
/// Keycode of the return key.
pub const KEYCODE_RETURN: i32 = 13;
/// Keycode of the keypad enter key, which the menu reads as a raw key press.
pub const KEYCODE_KP_ENTER: i32 = 1073741912;
/// Keycode of the escape key.
pub const KEYCODE_ESCAPE: i32 = 27;

/// The built-in bindings, by keycode: arrows and WASD walk, return selects,
/// escape goes back.
pub open spec fn default_bindings() -> Seq<(i32, Action)> {
    seq![
        (KEYCODE_UP, Action::Up),
        (KEYCODE_DOWN, Action::Down),
        (KEYCODE_LEFT, Action::Left),
        (KEYCODE_RIGHT, Action::Right),
        (KEYCODE_W, Action::Up),
        (KEYCODE_S, Action::Down),
        (KEYCODE_A, Action::Left),
        (KEYCODE_D, Action::Right),
        (KEYCODE_RETURN, Action::Select),
        (KEYCODE_ESCAPE, Action::Back),
    ]
}

/// The built-in bindings, by keycode; the platform says which physical key
/// (scancode) produces each keycode on the keyboard in use.
pub fn default_keycode_bindings() -> (r: Vec<(i32, Action)>)
    ensures
        r@ == default_bindings(),
{
    let bindings: Vec<(i32, Action)> = vec![
        (KEYCODE_UP, Action::Up),
        (KEYCODE_DOWN, Action::Down),
        (KEYCODE_LEFT, Action::Left),
        (KEYCODE_RIGHT, Action::Right),
        (KEYCODE_W, Action::Up),
        (KEYCODE_S, Action::Down),
        (KEYCODE_A, Action::Left),
        (KEYCODE_D, Action::Right),
        (KEYCODE_RETURN, Action::Select),
        (KEYCODE_ESCAPE, Action::Back),
    ];
    assert(bindings@ =~= default_bindings());
    bindings
}

/// The bindings of `bindings` with each key replaced by the scancode at the
/// same position of `scancodes`.
pub open spec fn rebind(bindings: Seq<(i32, Action)>, scancodes: Seq<Option<i32>>) -> Seq<(i32, Action)> {
    Seq::new(bindings.len(), |i: int| (scancodes[i].unwrap(), bindings[i].1))
}

/// The key map of the built-in bindings, given for each of them, in order,
/// the scancode that the platform reports for its keycode. Fails when the
/// list is not one scancode per binding or a keycode has no scancode.
pub fn hardcoded_keymap(scancodes: &Vec<Option<i32>>) -> (r: Result<KeyMap, crate::error::Error>)
    ensures
        r is Ok <==> (scancodes@.len() == default_bindings().len()
            && forall|i: int| 0 <= i < scancodes@.len() ==> #[trigger] scancodes@[i] is Some),
        r matches Ok(m) ==> m.wf() && m@ == bindings_map(rebind(default_bindings(), scancodes@)),
{
    let keycodes = default_keycode_bindings();
    if scancodes.len() != keycodes.len() {
        return Err(crate::error::Error::simple("one scancode per binding is needed"));
    }
    let mut bindings: Vec<(i32, Action)> = Vec::new();
    let mut i: usize = 0;
    while i < keycodes.len()
        invariant
            i <= keycodes@.len(),
            keycodes@ == default_bindings(),
            scancodes@.len() == keycodes@.len(),
            forall|j: int| 0 <= j < i ==> #[trigger] scancodes@[j] is Some,
            bindings@ == rebind(default_bindings(), scancodes@).subrange(0, i as int),
        decreases keycodes.len() - i,
    {
        match scancodes[i] {
            Some(code) => {
                bindings.push((code, keycodes[i].1));
            },
            None => {
                return Err(crate::error::Error::simple("a key has no scancode"));
            },
        }
        i = i + 1;
    }
    assert(bindings@ == rebind(default_bindings(), scancodes@));
    Ok(KeyMap::new(bindings))
}

} // verus!
