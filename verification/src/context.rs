use vstd::prelude::*;
use crate::keys::{KeyEvent, KeyMap, VK_SPACE};
use crate::game_pad::{PadLayout, PAD_IDLE, press_direction, press_events, press_status, div_toward_zero};

verus! {

/// The state that the browser client keeps for the game, taken as values.
pub struct ContextView {
    /// Key names and the codes they stand for.
    pub key_map: Map<Seq<char>, i32>,
    /// Key events not yet picked by the game, oldest first.
    pub key_events: Seq<(KeyEvent, i32)>,
    /// Text messages not yet picked by the game.
    pub messages: Seq<Seq<char>>,
    /// Binary messages not yet picked by the game, oldest first.
    pub binary_messages: Seq<Seq<u8>>,
    /// Names of the keys held down, in the order they went down.
    pub pressed: Seq<Seq<char>>,
    /// The direction of the game pad's cross held so far.
    pub pad_status: i32,
}

impl ContextView {
    /// Every held key is a mapped key, and none is held twice.
    pub open spec fn wf(self) -> bool {
        &&& self.pressed.no_duplicates()
        &&& forall|i: int| 0 <= i < self.pressed.len() ==> self.key_map.contains_key(#[trigger] self.pressed[i])
    }

    /// A key goes down. A mapped key that is not held yet becomes held and
    /// raises a key-down event with its code; a held key (auto-repeat) and an
    /// unmapped key change nothing.
    pub open spec fn key_down(self, key: Seq<char>) -> ContextView {
        if self.key_map.contains_key(key) && !self.pressed.contains(key) {
            ContextView {
                pressed: self.pressed.push(key),
                key_events: self.key_events.push((KeyEvent::KeyDown, self.key_map[key])),
                ..self
            }
        } else {
            self
        }
    }

    /// A key comes up. A mapped key stops being held and raises a key-up event
    /// with its code, held or not; an unmapped key changes nothing.
    pub open spec fn key_up(self, key: Seq<char>) -> ContextView {
        if self.key_map.contains_key(key) {
            ContextView {
                pressed: without(self.pressed, key),
                key_events: self.key_events.push((KeyEvent::KeyUp, self.key_map[key])),
                ..self
            }
        } else {
            self
        }
    }

    /// The cross is touched at `(x, y)` relative to it, with buttons `w` wide.
    pub open spec fn pad_touch(self, x: int, y: int, w: int) -> ContextView {
        ContextView {
            key_events: self.key_events + press_events(x, y, w, self.pad_status as int),
            pad_status: press_status(x, y, w, self.pad_status),
            ..self
        }
    }

    /// Button A or B of the pad is pressed: a key-down of the space bar.
    pub open spec fn pad_button(self) -> ContextView {
        ContextView { key_events: self.key_events.push((KeyEvent::KeyDown, VK_SPACE)), ..self }
    }

    /// A blob from the socket has been read: an array buffer is queued,
    /// any other result is dropped.
    pub open spec fn blob_loaded(self, data: Option<Seq<u8>>) -> ContextView {
        match data {
            Some(d) => ContextView { binary_messages: self.binary_messages.push(d), ..self },
            None => self,
        }
    }
}

/// One thing that happens to the client's state: an input event from the
/// page, or the game picking the queued key events.
pub enum Step {
    KeyDown(Seq<char>),
    KeyUp(Seq<char>),
    PadTouch(int, int, int),
    PadButton,
    BlobLoaded(Option<Seq<u8>>),
    PickKeyEvents,
}

impl ContextView {
    /// The state after `step`. Picking the key events empties their queue.
    pub open spec fn apply(self, step: Step) -> ContextView {
        match step {
            Step::KeyDown(key) => self.key_down(key),
            Step::KeyUp(key) => self.key_up(key),
            Step::PadTouch(x, y, w) => self.pad_touch(x, y, w),
            Step::PadButton => self.pad_button(),
            Step::BlobLoaded(data) => self.blob_loaded(data),
            Step::PickKeyEvents => ContextView { key_events: Seq::empty(), ..self },
        }
    }

    /// The key events that `step` hands to the game: all queued ones for a
    /// pick, none otherwise.
    pub open spec fn handed_out(self, step: Step) -> Seq<(KeyEvent, i32)> {
        match step {
            Step::PickKeyEvents => self.key_events,
            _ => Seq::empty(),
        }
    }

    /// The key events that `step` adds to the queue.
    pub open spec fn raised(self, step: Step) -> Seq<(KeyEvent, i32)> {
        match step {
            Step::PickKeyEvents => Seq::empty(),
            _ => self.apply(step).key_events.skip(self.key_events.len() as int),
        }
    }
}

/// The keys of `s` other than `key`, in their order.
pub open spec fn without(s: Seq<Seq<char>>, key: Seq<char>) -> Seq<Seq<char>> {
    s.filter(|k: Seq<char>| k != key)
}

/// The game context of the browser client: the queues that the game drains
/// each frame and the keyboard and game-pad state behind them.
pub struct JSGameContext {
    key_map: KeyMap,
    key_events: Vec<(KeyEvent, i32)>,
    messages: Vec<String>,
    binary_messages: Vec<Vec<u8>>,
    pressed: Vec<String>,
    pad_status: i32,
}

/// The names of a list of strings, taken as characters.
pub open spec fn names(v: Seq<String>) -> Seq<Seq<char>> {
    v.map_values(|s: String| s@)
}

/// The contents of a list of byte buffers.
pub open spec fn buffers(v: Seq<Vec<u8>>) -> Seq<Seq<u8>> {
    v.map_values(|b: Vec<u8>| b@)
}

impl View for JSGameContext {
    type V = ContextView;

    closed spec fn view(&self) -> ContextView {
        ContextView {
            key_map: self.key_map@,
            key_events: self.key_events@,
            messages: names(self.messages@),
            binary_messages: buffers(self.binary_messages@),
            pressed: names(self.pressed@),
            pad_status: self.pad_status,
        }
    }
}

impl JSGameContext {
    /// The context is well formed: its key map and its held keys are.
    pub closed spec fn wf(&self) -> bool {
        self.key_map.wf() && self@.wf()
    }

    /// A fresh context over `key_map`: nothing queued, nothing held, the
    /// cross idle.
    pub fn new(key_map: KeyMap) -> (r: JSGameContext)
        requires
            key_map.wf(),
        ensures
            r.wf(),
            r@ == (ContextView {
                key_map: key_map@,
                key_events: Seq::empty(),
                messages: Seq::empty(),
                binary_messages: Seq::empty(),
                pressed: Seq::empty(),
                pad_status: PAD_IDLE,
            }),
    {
        let r = JSGameContext {
            key_map,
            key_events: Vec::new(),
            messages: Vec::new(),
            binary_messages: Vec::new(),
            pressed: Vec::new(),
            pad_status: PAD_IDLE,
        };
        assert(r@.pressed =~= Seq::<Seq<char>>::empty());
        assert(r@.messages =~= Seq::<Seq<char>>::empty());
        assert(r@.binary_messages =~= Seq::<Seq<u8>>::empty());
        r
    }

    /// Whether `key` is held.
    fn is_pressed(&self, key: &String) -> (r: bool)
        ensures
            r == names(self.pressed@).contains(key@),
    {
        let n = self.pressed.len();
        let mut i: usize = 0;
        while i < n
            invariant
                n == self.pressed@.len(),
                i <= n,
                forall|j: int| 0 <= j < i ==> self.pressed@[j]@ != key@,
            decreases n - i,
        {
            if self.pressed[i] == *key {
                assert(names(self.pressed@)[i as int] == key@);
                return true;
            }
            i = i + 1;
        }
        proof {
            if names(self.pressed@).contains(key@) {
                let j = choose|j: int| 0 <= j < n && names(self.pressed@)[j] == key@;
                assert(self.pressed@[j]@ == key@);
            }
        }
        false
    }

    /// A key of the keyboard goes down (see `ContextView::key_down`).
    /// Returns whether the key is mapped, that is whether the page should
    /// keep the browser's own handling of the key from running.
    pub fn on_key_down(&mut self, key: &str) -> (handled: bool)
        requires
            old(self).wf(),
        ensures
            final(self).wf(),
            final(self)@ == old(self)@.key_down(key@),
            handled == old(self)@.key_map.contains_key(key@),
    {
        let key = key.to_owned();
        match self.key_map.get(key.as_str()) {
            Some(code) => {
                if !self.is_pressed(&key) {
                    let ghost before = self@;
                    self.pressed.push(key);
                    self.key_events.push((KeyEvent::KeyDown, code));
                    proof {
                        assert(self@.pressed =~= before.pressed.push(key@));
                        assert(self@ == before.key_down(key@));
                        assert forall|i: int| 0 <= i < self@.pressed.len() implies self@.key_map.contains_key(
                            #[trigger] self@.pressed[i],
                        ) by {
                            if i < before.pressed.len() {
                                assert(self@.pressed[i] == before.pressed[i]);
                            }
                        }
                    }
                }
                true
            },
            None => false,
        }
    }

    /// A key of the keyboard comes up (see `ContextView::key_up`). Returns
    /// whether the key is mapped.
    pub fn on_key_up(&mut self, key: &str) -> (handled: bool)
        requires
            old(self).wf(),
        ensures
            final(self).wf(),
            final(self)@ == old(self)@.key_up(key@),
            handled == old(self)@.key_map.contains_key(key@),
    {
        let key = key.to_owned();
        match self.key_map.get(key.as_str()) {
            Some(code) => {
                let ghost before = self@;
                let ghost old_names = names(self.pressed@);
                let mut kept: Vec<String> = Vec::new();
                let n = self.pressed.len();
                let mut i: usize = 0;
                while i < n
                    invariant
                        n == self.pressed@.len(),
                        i <= n,
                        old_names == names(self.pressed@),
                        old_names.no_duplicates(),
                        names(kept@) == without(old_names.take(i as int), key@),
                    decreases n - i,
                {
                    proof {
                        reveal(Seq::filter);
                        assert(old_names.take(i + 1).drop_last() =~= old_names.take(i as int));
                    }
                    if !(self.pressed[i] == key) {
                        kept.push(self.pressed[i].clone());
                        assert(names(kept@) =~= without(old_names.take(i as int), key@).push(old_names[i as int]));
                    }
                    i = i + 1;
                }
                proof {
                    reveal(Seq::filter);
                    assert(old_names.take(n as int) =~= old_names);
                }
                self.pressed = kept;
                self.key_events.push((KeyEvent::KeyUp, code));
                proof {
                    crate::laws::lemma_filter_keeps_held_keys(before, key@);
                    assert(self@ == before.key_up(key@));
                    assert forall|i: int| 0 <= i < self@.pressed.len() implies self@.key_map.contains_key(
                        #[trigger] self@.pressed[i],
                    ) by {
                        let k = self@.pressed[i];
                        assert(without(before.pressed, key@).contains(k));
                        let j = choose|j: int| 0 <= j < before.pressed.len() && before.pressed[j] == k;
                        assert(before.key_map.contains_key(before.pressed[j]));
                    }
                }
                true
            },
            None => false,
        }
    }

    /// The cross of the game pad is touched at the client point
    /// `(client_x, client_y)` (see `ContextView::pad_touch`): the point is
    /// taken relative to the cross, and buttons are a third of its width.
    /// Returns the new status where a button fired, the page's record of the
    /// status then being due for an update; `None` where none fired.
    pub fn on_pad_touch(&mut self, layout: &PadLayout, client_x: i32, client_y: i32) -> (r: Option<i32>)
        requires
            old(self).wf(),
            layout.point_in_range(client_x, client_y),
        ensures
            final(self).wf(),
            final(self)@ == old(self)@.pad_touch(
                layout.local_x(client_x),
                layout.local_y(client_y),
                div_toward_zero(layout.direction_width as int, 3),
            ),
            r == (if press_events(
                layout.local_x(client_x),
                layout.local_y(client_y),
                div_toward_zero(layout.direction_width as int, 3),
                old(self)@.pad_status as int,
            ).len() > 0 {
                Some(final(self)@.pad_status)
            } else {
                None::<i32>
            }),
    {
        let x = client_x - layout.pad_left - layout.direction_left;
        let y = client_y - layout.pad_top - layout.direction_top;
        let w = layout.button_width();
        let press = press_direction(x, y, w, self.pad_status);
        let ghost before = self@;
        let mut events = press.events;
        let fired = events.len() > 0;
        self.key_events.append(&mut events);
        self.pad_status = press.status;
        assert(self@ == before.pad_touch(x as int, y as int, w as int));
        if fired {
            Some(self.pad_status)
        } else {
            None
        }
    }

    /// Button A or B of the game pad is pressed (see `ContextView::pad_button`).
    pub fn on_pad_button(&mut self)
        requires
            old(self).wf(),
        ensures
            final(self).wf(),
            final(self)@ == old(self)@.pad_button(),
            final(self)@.key_events == old(self)@.key_events.push((KeyEvent::KeyDown, VK_SPACE)),
    {
        self.key_events.push((KeyEvent::KeyDown, VK_SPACE));
    }

    /// A blob that the socket delivered has been read (see
    /// `ContextView::blob_loaded`): `data` holds the bytes where the reader
    /// produced an array buffer.
    pub fn on_blob_loaded(&mut self, data: Option<Vec<u8>>)
        requires
            old(self).wf(),
        ensures
            final(self).wf(),
            final(self)@ == old(self)@.blob_loaded(
                match data {
                    Some(d) => Some(d@),
                    None => None,
                },
            ),
            data matches Some(d) ==> final(self)@.binary_messages == old(self)@.binary_messages.push(d@),
            data is None ==> final(self)@.binary_messages == old(self)@.binary_messages,
    {
        match data {
            Some(d) => {
                let ghost before = self@;
                let ghost dv = d@;
                self.binary_messages.push(d);
                assert(self@.binary_messages =~= before.binary_messages.push(dv));
            },
            None => {},
        }
    }

    /// Hands over the queued key events, oldest first, and empties the queue.
    pub fn pick_key_events(&mut self) -> (r: Vec<(KeyEvent, i32)>)
        requires
            old(self).wf(),
        ensures
            final(self).wf(),
            r@ == old(self)@.handed_out(Step::PickKeyEvents),
            final(self)@ == old(self)@.apply(Step::PickKeyEvents),
            r@ == old(self)@.key_events,
            final(self)@.key_events.len() == 0,
    {
        let mut events: Vec<(KeyEvent, i32)> = Vec::new();
        std::mem::swap(&mut events, &mut self.key_events);
        events
    }

    /// Hands over the queued text messages, oldest first, and empties the queue.
    pub fn pick_messages(&mut self) -> (r: Vec<String>)
        requires
            old(self).wf(),
        ensures
            final(self).wf(),
            names(r@) == old(self)@.messages,
            final(self)@ == (ContextView { messages: Seq::empty(), ..old(self)@ }),
    {
        let mut msgs: Vec<String> = Vec::new();
        std::mem::swap(&mut msgs, &mut self.messages);
        assert(names(self.messages@) =~= Seq::<Seq<char>>::empty());
        msgs
    }

    /// Hands over the queued binary messages, oldest first, and empties the queue.
    pub fn pick_binary_messages(&mut self) -> (r: Vec<Vec<u8>>)
        requires
            old(self).wf(),
        ensures
            final(self).wf(),
            buffers(r@) == old(self)@.binary_messages,
            final(self)@ == (ContextView { binary_messages: Seq::empty(), ..old(self)@ }),
    {
        let mut msgs: Vec<Vec<u8>> = Vec::new();
        std::mem::swap(&mut msgs, &mut self.binary_messages);
        assert(buffers(self.binary_messages@) =~= Seq::<Seq<u8>>::empty());
        msgs
    }
}

} // verus!
