use vstd::prelude::*;

verus! {

/// Whether a key went down or came back up.
#[derive(Clone, Copy, Debug, PartialEq, Eq, Structural)]
pub enum KeyEvent {
    KeyDown,
    KeyUp,
}

/// Key code of the space bar (fire).
pub const VK_SPACE: i32 = 32;

/// Key code of the left arrow.
pub const VK_LEFT: i32 = 37;

/// Key code of the up arrow.
pub const VK_UP: i32 = 38;

/// Key code of the right arrow.
pub const VK_RIGHT: i32 = 39;

/// Key code of the down arrow.
pub const VK_DOWN: i32 = 40;

/// A table from key names (as the browser reports them) to key codes.
/// No key name occurs twice.
pub struct KeyMap {
    entries: Vec<(String, i32)>,
}

/// The entries of a key map, each name taken as its characters.
pub open spec fn entries_view(entries: Seq<(String, i32)>) -> Seq<(Seq<char>, i32)> {
    entries.map_values(|e: (String, i32)| (e.0@, e.1))
}

/// No key name occurs twice among the entries.
pub open spec fn names_distinct(ev: Seq<(Seq<char>, i32)>) -> bool {
    forall|i: int, j: int| 0 <= i < ev.len() && 0 <= j < ev.len() && i != j ==> ev[i].0 != ev[j].0
}

/// The map that a list of entries with distinct names stands for.
pub open spec fn entries_map(ev: Seq<(Seq<char>, i32)>) -> Map<Seq<char>, i32> {
    Map::new(
        |k: Seq<char>| exists|i: int| 0 <= i < ev.len() && ev[i].0 == k,
        |k: Seq<char>| ev[choose|i: int| 0 <= i < ev.len() && ev[i].0 == k].1,
    )
}

impl View for KeyMap {
    type V = Map<Seq<char>, i32>;

    closed spec fn view(&self) -> Map<Seq<char>, i32> {
        entries_map(entries_view(self.entries@))
    }
}

impl KeyMap {
    /// The key map is well formed: no key name occurs twice.
    pub closed spec fn wf(&self) -> bool {
        names_distinct(entries_view(self.entries@))
    }

    /// An empty key map.
    pub fn new() -> (r: KeyMap)
        ensures
            r.wf(),
            r@ == Map::<Seq<char>, i32>::empty(),
    {
        let r = KeyMap { entries: Vec::new() };
        assert(r@ =~= Map::<Seq<char>, i32>::empty());
        r
    }

    /// Index of the entry named `key`, if there is one.
    fn position(&self, key: &String) -> (r: Option<usize>)
        requires
            self.wf(),
        ensures
            match r {
                Some(i) => i < self.entries@.len() && self.entries@[i as int].0@ == key@,
                None => forall|i: int|
                    0 <= i < self.entries@.len() ==> self.entries@[i].0@ != key@,
            },
    {
        let n = self.entries.len();
        let mut i: usize = 0;
        while i < n
            invariant
                n == self.entries@.len(),
                i <= n,
                forall|j: int| 0 <= j < i ==> self.entries@[j].0@ != key@,
            decreases n - i,
        {
            if self.entries[i].0 == *key {
                return Some(i);
            }
            i = i + 1;
        }
        None
    }

    /// The code bound to `key`, if any.
    pub fn get(&self, key: &str) -> (r: Option<i32>)
        requires
            self.wf(),
        ensures
            r == (if self@.contains_key(key@) {
                Some(self@[key@])
            } else {
                None::<i32>
            }),
    {
        let ghost ev = entries_view(self.entries@);
        let key = key.to_owned();
        match self.position(&key) {
            Some(i) => {
                proof {
                    assert(ev[i as int].0 == key@);
                    let j = choose|j: int| 0 <= j < ev.len() && ev[j].0 == key@;
                    assert(j == i);
                }
                Some(self.entries[i].1)
            },
            None => {
                proof {
                    assert forall|j: int| 0 <= j < ev.len() implies ev[j].0 != key@ by {
                        assert(ev[j].0 == self.entries@[j].0@);
                    }
                }
                None
            },
        }
    }

    /// Binds `key` to `code`, replacing an earlier binding of the same key.
    pub fn insert(&mut self, key: &str, code: i32)
        requires
            old(self).wf(),
        ensures
            final(self).wf(),
            final(self)@ == old(self)@.insert(key@, code),
    {
        let ghost old_ev = entries_view(self.entries@);
        let key = key.to_owned();
        match self.position(&key) {
            Some(i) => {
                let name = self.entries[i].0.clone();
                self.entries.set(i, (name, code));
                proof {
                    let ev = entries_view(self.entries@);
                    assert(ev =~= old_ev.update(i as int, (key@, code)));
                    assert forall|a: int| 0 <= a < ev.len() implies #[trigger] ev[a].0 == old_ev[a].0 by {}
                    assert(names_distinct(ev));
                    assert(old_ev[i as int].0 == key@);
                    lemma_bind_entry(old_ev, ev, key@, code, i as int);
                }
            },
            None => {
                self.entries.push((key, code));
                proof {
                    let ev = entries_view(self.entries@);
                    assert(ev =~= old_ev.push((key@, code)));
                    assert forall|j: int| 0 <= j < old_ev.len() implies old_ev[j].0 != key@ by {
                        assert(old_ev[j].0 == old(self).entries@[j].0@);
                    }
                    assert(names_distinct(ev));
                    lemma_bind_entry(old_ev, ev, key@, code, old_ev.len() as int);
                }
            },
        }
    }
}

/// Entries `ev` that agree with `old_ev` but for the entry at `pos`, which
/// binds `key` to `code` (replacing the old binding of `key` there, or added
/// after the old entries), stand for the old map with that binding.
proof fn lemma_bind_entry(
    old_ev: Seq<(Seq<char>, i32)>,
    ev: Seq<(Seq<char>, i32)>,
    key: Seq<char>,
    code: i32,
    pos: int,
)
    requires
        names_distinct(old_ev),
        names_distinct(ev),
        0 <= pos < ev.len(),
        old_ev.len() <= ev.len(),
        ev[pos] == (key, code),
        pos < old_ev.len() ==> old_ev[pos].0 == key,
        forall|j: int| 0 <= j < ev.len() && j != pos ==> j < old_ev.len() && ev[j] == old_ev[j],
        forall|j: int| 0 <= j < old_ev.len() && old_ev[j].0 == key ==> j == pos,
    ensures
        entries_map(ev) == entries_map(old_ev).insert(key, code),
{
    let m = entries_map(ev);
    let om = entries_map(old_ev).insert(key, code);
    assert forall|k: Seq<char>| #[trigger] m.contains_key(k) <==> om.contains_key(k) by {
        if k == key {
            assert(ev[pos].0 == k);
        } else if m.contains_key(k) {
            let j = choose|j: int| 0 <= j < ev.len() && ev[j].0 == k;
            assert(old_ev[j].0 == k);
        } else if entries_map(old_ev).contains_key(k) {
            let j = choose|j: int| 0 <= j < old_ev.len() && old_ev[j].0 == k;
            assert(ev[j].0 == k);
        }
    }
    assert forall|k: Seq<char>| #[trigger] m.contains_key(k) implies m[k] == om[k] by {
        let j = choose|j: int| 0 <= j < ev.len() && ev[j].0 == k;
        if k == key {
            assert(ev[pos].0 == k);
            assert(j == pos);
        } else {
            assert(old_ev[j].0 == k);
            let j2 = choose|j2: int| 0 <= j2 < old_ev.len() && old_ev[j2].0 == k;
            assert(j2 == j);
        }
    }
    assert(m =~= om);
}

} // verus!
