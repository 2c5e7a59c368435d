use vstd::prelude::*;
use crate::context::{ContextView, Step, without};
use crate::keys::{KeyEvent, VK_UP, VK_DOWN, VK_LEFT, VK_RIGHT, VK_SPACE};
use crate::game_pad::{
    press_events, press_status, up_hit, down_hit, left_hit, right_hit, PadLayout, PAD_UP, PAD_DOWN,
    PAD_LEFT, PAD_RIGHT,
};

verus! {

/// Dropping one key from a list of held keys keeps it free of repeats and
/// keeps only keys that were held.
pub proof fn lemma_filter_keeps_held_keys(v: ContextView, key: Seq<char>)
    requires
        v.wf(),
    ensures
        without(v.pressed, key).no_duplicates(),
        forall|k: Seq<char>| #[trigger] without(v.pressed, key).contains(k)
            ==> v.pressed.contains(k) && k != key,
{
    lemma_filter_distinct(v.pressed, key);
}

proof fn lemma_filter_distinct(s: Seq<Seq<char>>, key: Seq<char>)
    requires
        s.no_duplicates(),
    ensures
        without(s, key).no_duplicates(),
        forall|k: Seq<char>| #[trigger] without(s, key).contains(k)
            ==> s.contains(k) && k != key,
    decreases s.len(),
{
    reveal(Seq::filter);
    if s.len() > 0 {
        let rest = s.drop_last();
        assert(rest.no_duplicates());
        lemma_filter_distinct(rest, key);
        let fr = without(rest, key);
        assert(without(s, key) == if s.last() != key { fr.push(s.last()) } else { fr });
        if s.last() != key {
            assert(!rest.contains(s.last()));
            assert(!fr.contains(s.last()));
            let f = fr.push(s.last());
            assert forall|k: Seq<char>| #[trigger] f.contains(k) implies s.contains(k) && k != key by {
                let i = choose|i: int| 0 <= i < f.len() && f[i] == k;
                if i < fr.len() {
                    assert(fr.contains(k));
                    let j = choose|j: int| 0 <= j < rest.len() && rest[j] == k;
                    assert(s[j] == k);
                } else {
                    assert(s[s.len() - 1] == k);
                }
            }
            assert forall|a: int, b: int| 0 <= a < f.len() && 0 <= b < f.len() && a != b implies f[a] != f[b] by {
                if a < fr.len() && b < fr.len() {
                } else if a < fr.len() {
                    assert(fr.contains(f[a]));
                } else {
                    assert(fr.contains(f[b]));
                }
            }
        } else {
            assert forall|k: Seq<char>| #[trigger] fr.contains(k) implies s.contains(k) && k != key by {
                let j = choose|j: int| 0 <= j < rest.len() && rest[j] == k;
                assert(s[j] == k);
            }
        }
    } else {
        assert(without(s, key) =~= s);
    }
}

/// Dropping a key that is not in the list leaves the list as it is.
proof fn lemma_without_absent(s: Seq<Seq<char>>, key: Seq<char>)
    requires
        !s.contains(key),
    ensures
        without(s, key) == s,
    decreases s.len(),
{
    reveal(Seq::filter);
    if s.len() > 0 {
        let rest = s.drop_last();
        assert(!rest.contains(key)) by {
            if rest.contains(key) {
                let j = choose|j: int| 0 <= j < rest.len() && rest[j] == key;
                assert(s[j] == key);
            }
        }
        lemma_without_absent(rest, key);
        assert(s.last() != key) by {
            assert(s[s.len() - 1] == s.last());
        }
        assert(rest.push(s.last()) =~= s);
    } else {
        assert(without(s, key) =~= s);
    }
}

/// A key held down raises one key-down only: while it is held, the
/// browser's repeated key-downs change nothing.
pub proof fn lemma_held_key_repeats_silently(v: ContextView, key: Seq<char>)
    ensures
        v.key_down(key).key_down(key) == v.key_down(key),
{
    if v.key_map.contains_key(key) && !v.pressed.contains(key) {
        assert(v.pressed.push(key)[v.pressed.len() as int] == key);
    }
}

/// Releasing a mapped key that was just pressed, when it was not held
/// before, gives back the held keys as they were, and the game sees exactly
/// a key-down and a key-up with the key's code.
pub proof fn lemma_release_undoes_press(v: ContextView, key: Seq<char>)
    requires
        v.wf(),
        v.key_map.contains_key(key),
        !v.pressed.contains(key),
    ensures
        v.key_down(key).key_up(key).pressed == v.pressed,
        v.key_down(key).key_up(key).key_events == v.key_events + seq![
            (KeyEvent::KeyDown, v.key_map[key]),
            (KeyEvent::KeyUp, v.key_map[key]),
        ],
        v.key_down(key).key_up(key) == (ContextView {
            pressed: v.pressed,
            key_events: v.key_down(key).key_up(key).key_events,
            ..v
        }),
{
    reveal(Seq::filter);
    let s = v.pressed;
    lemma_without_absent(s, key);
    assert(s.push(key).drop_last() =~= s);
    assert(without(s.push(key), key) == without(s, key));
    assert(v.key_down(key).key_up(key).key_events =~= v.key_events + seq![
        (KeyEvent::KeyDown, v.key_map[key]),
        (KeyEvent::KeyUp, v.key_map[key]),
    ]);
}

/// Keys that the key map does not name change nothing, going down or up.
pub proof fn lemma_unmapped_key_ignored(v: ContextView, key: Seq<char>)
    requires
        !v.key_map.contains_key(key),
    ensures
        v.key_down(key) == v,
        v.key_up(key) == v,
{
}

/// Every change of the state keeps it well formed: held keys are mapped and
/// none is held twice.
pub proof fn lemma_steps_keep_wf(v: ContextView, key: Seq<char>, x: int, y: int, w: int, data: Option<Seq<u8>>)
    requires
        v.wf(),
    ensures
        v.key_down(key).wf(),
        v.key_up(key).wf(),
        v.pad_touch(x, y, w).wf(),
        v.pad_button().wf(),
        v.blob_loaded(data).wf(),
{
    if v.key_map.contains_key(key) && !v.pressed.contains(key) {
        let p = v.pressed.push(key);
        assert(p.no_duplicates()) by {
            assert forall|a: int, b: int| 0 <= a < p.len() && 0 <= b < p.len() && a != b implies p[a] != p[b] by {
                if a == v.pressed.len() as int {
                    assert(p[b] == v.pressed[b]);
                    if p[b] == key {
                        assert(v.pressed.contains(key));
                    }
                } else if b == v.pressed.len() as int {
                    assert(p[a] == v.pressed[a]);
                    if p[a] == key {
                        assert(v.pressed.contains(key));
                    }
                } else {
                    assert(p[a] == v.pressed[a] && p[b] == v.pressed[b]);
                }
            }
        }
        assert forall|i: int| 0 <= i < p.len() implies v.key_map.contains_key(#[trigger] p[i]) by {
            if i < v.pressed.len() {
                assert(p[i] == v.pressed[i]);
            }
        }
    }
    if v.key_map.contains_key(key) {
        lemma_filter_keeps_held_keys(v, key);
        let p = without(v.pressed, key);
        assert forall|i: int| 0 <= i < p.len() implies v.key_map.contains_key(#[trigger] p[i]) by {
            assert(p.contains(p[i]));
            let j = choose|j: int| 0 <= j < v.pressed.len() && v.pressed[j] == p[i];
            assert(v.key_map.contains_key(v.pressed[j]));
        }
    }
}

/// No change of the state drops or reorders a queued key event: the events
/// queued before come first, unchanged.
pub proof fn lemma_events_only_appended(v: ContextView, key: Seq<char>, x: int, y: int, w: int, data: Option<Seq<u8>>)
    ensures
        v.key_down(key).key_events.take(v.key_events.len() as int) == v.key_events,
        v.key_up(key).key_events.take(v.key_events.len() as int) == v.key_events,
        v.pad_touch(x, y, w).key_events.take(v.key_events.len() as int) == v.key_events,
        v.pad_button().key_events.take(v.key_events.len() as int) == v.key_events,
        v.blob_loaded(data).key_events == v.key_events,
{
    assert(v.key_down(key).key_events.take(v.key_events.len() as int) =~= v.key_events);
    assert(v.key_up(key).key_events.take(v.key_events.len() as int) =~= v.key_events);
    assert(v.pad_touch(x, y, w).key_events.take(v.key_events.len() as int) =~= v.key_events);
    assert(v.pad_button().key_events.take(v.key_events.len() as int) =~= v.key_events);
}

/// The pad's cross never re-sends the direction that is already held.
pub proof fn lemma_pad_never_resends_held_direction(x: int, y: int, w: int, status: int)
    ensures
        status == PAD_UP ==> !press_events(x, y, w, status).contains((KeyEvent::KeyDown, VK_UP)),
        status == PAD_DOWN ==> !press_events(x, y, w, status).contains((KeyEvent::KeyDown, VK_DOWN)),
        status == PAD_LEFT ==> !press_events(x, y, w, status).contains((KeyEvent::KeyDown, VK_LEFT)),
        status == PAD_RIGHT ==> !press_events(x, y, w, status).contains((KeyEvent::KeyDown, VK_RIGHT)),
{
    let e = press_events(x, y, w, status);
    assert forall|i: int| 0 <= i < e.len() implies (status == PAD_UP ==> e[i] != (KeyEvent::KeyDown, VK_UP))
        && (status == PAD_DOWN ==> e[i] != (KeyEvent::KeyDown, VK_DOWN))
        && (status == PAD_LEFT ==> e[i] != (KeyEvent::KeyDown, VK_LEFT))
        && (status == PAD_RIGHT ==> e[i] != (KeyEvent::KeyDown, VK_RIGHT)) by {
    }
}

/// A touch that lies in exactly one button of the cross, repeated (the
/// finger resting or moving within the button), raises nothing the second
/// time.
pub proof fn lemma_pad_rest_is_silent(v: ContextView, x: int, y: int, w: int)
    requires
        (if up_hit(x, y, w) { 1int } else { 0 }) + (if down_hit(x, y, w) { 1int } else { 0 })
            + (if left_hit(x, y, w) { 1int } else { 0 }) + (if right_hit(x, y, w) { 1int } else { 0 })
            == 1,
    ensures
        v.pad_touch(x, y, w).pad_touch(x, y, w) == v.pad_touch(x, y, w),
{
    let v1 = v.pad_touch(x, y, w);
    assert(press_events(x, y, w, v1.pad_status as int) =~= Seq::<(KeyEvent, i32)>::empty());
    assert(v1.key_events + Seq::<(KeyEvent, i32)>::empty() =~= v1.key_events);
}

/// The state after `steps`, taken in order.
pub open spec fn run(v: ContextView, steps: Seq<Step>) -> ContextView
    decreases steps.len(),
{
    if steps.len() == 0 {
        v
    } else {
        run(v.apply(steps[0]), steps.drop_first())
    }
}

/// The key events that `steps` hand to the game, all picks one after the other.
pub open spec fn run_handed_out(v: ContextView, steps: Seq<Step>) -> Seq<(KeyEvent, i32)>
    decreases steps.len(),
{
    if steps.len() == 0 {
        Seq::empty()
    } else {
        v.handed_out(steps[0]) + run_handed_out(v.apply(steps[0]), steps.drop_first())
    }
}

/// The key events that `steps` raise, in the order they are raised.
pub open spec fn run_raised(v: ContextView, steps: Seq<Step>) -> Seq<(KeyEvent, i32)>
    decreases steps.len(),
{
    if steps.len() == 0 {
        Seq::empty()
    } else {
        v.raised(steps[0]) + run_raised(v.apply(steps[0]), steps.drop_first())
    }
}

/// One step: what it hands out, then what it leaves queued, is what was
/// queued before, then what it raises.
proof fn lemma_step_accounts(v: ContextView, step: Step)
    ensures
        v.handed_out(step) + v.apply(step).key_events == v.key_events + v.raised(step),
{
    let n = v.key_events.len() as int;
    match step {
        Step::PickKeyEvents => {
            assert(v.handed_out(step) + v.apply(step).key_events =~= v.key_events + v.raised(step));
        },
        Step::KeyDown(key) => {
            lemma_events_only_appended(v, key, 0, 0, 0, None);
            let e = v.apply(step).key_events;
            assert(e =~= e.take(n) + e.skip(n));
            assert(v.handed_out(step) + e =~= v.key_events + v.raised(step));
        },
        Step::KeyUp(key) => {
            lemma_events_only_appended(v, key, 0, 0, 0, None);
            let e = v.apply(step).key_events;
            assert(e =~= e.take(n) + e.skip(n));
            assert(v.handed_out(step) + e =~= v.key_events + v.raised(step));
        },
        Step::PadTouch(x, y, w) => {
            lemma_events_only_appended(v, Seq::empty(), x, y, w, None);
            let e = v.apply(step).key_events;
            assert(e =~= e.take(n) + e.skip(n));
            assert(v.handed_out(step) + e =~= v.key_events + v.raised(step));
        },
        Step::PadButton => {
            lemma_events_only_appended(v, Seq::empty(), 0, 0, 0, None);
            let e = v.apply(step).key_events;
            assert(e =~= e.take(n) + e.skip(n));
            assert(v.handed_out(step) + e =~= v.key_events + v.raised(step));
        },
        Step::BlobLoaded(data) => {
            let e = v.apply(step).key_events;
            assert(e == v.key_events);
            assert(v.handed_out(step) + e =~= v.key_events + v.raised(step));
        },
    }
}

/// Every key event is handed to the game exactly once and in the order it was
/// queued, over any interleaving of input events and picks: all that the picks
/// hand out, followed by what is still queued at the end, is what was queued at
/// the start followed by every event raised on the way.
pub proof fn lemma_events_handed_out_once_in_order(v: ContextView, steps: Seq<Step>)
    ensures
        run_handed_out(v, steps) + run(v, steps).key_events == v.key_events + run_raised(v, steps),
    decreases steps.len(),
{
    if steps.len() > 0 {
        let s = steps[0];
        let v1 = v.apply(s);
        let rest = steps.drop_first();
        lemma_step_accounts(v, s);
        lemma_events_handed_out_once_in_order(v1, rest);
        assert(run_handed_out(v, steps) + run(v, steps).key_events =~= v.handed_out(s) + (
        run_handed_out(v1, rest) + run(v1, rest).key_events));
        assert(v.key_events + run_raised(v, steps) =~= (v.key_events + v.raised(s)) + run_raised(
            v1,
            rest,
        ));
    } else {
        assert(run_handed_out(v, steps) + run(v, steps).key_events =~= v.key_events + run_raised(
            v,
            steps,
        ));
    }
}

/// From an empty queue, the picks followed by what remains queued give back
/// exactly the raised events, in order: none lost, none repeated.
pub proof fn lemma_from_empty_queue(v: ContextView, steps: Seq<Step>)
    requires
        v.key_events.len() == 0,
    ensures
        run_handed_out(v, steps) + run(v, steps).key_events == run_raised(v, steps),
{
    lemma_events_handed_out_once_in_order(v, steps);
    assert(v.key_events + run_raised(v, steps) =~= run_raised(v, steps));
}

/// A touch at the client point that lies `(x, y)` past the pad's offset plus
/// the cross's offset is the touch `(x, y)` relative to the cross: both
/// offsets are taken off.
pub proof fn lemma_touch_is_relative_to_cross(l: PadLayout, client_x: i32, client_y: i32, x: int, y: int)
    requires
        client_x == l.pad_left + l.direction_left + x,
        client_y == l.pad_top + l.direction_top + y,
    ensures
        l.local_x(client_x) == x,
        l.local_y(client_y) == y,
{
}

/// With buttons `w > 0` wide, a touch inside exactly one button raises that
/// button's key-down and makes its direction the held one, whatever
/// direction was held before, unless that very direction was held, in which
/// case nothing changes. A touch in the middle square raises nothing.
pub proof fn lemma_touch_in_one_button(x: int, y: int, w: int, status: i32)
    requires
        w > 0,
    ensures
        w < x < 2 * w && y < w ==> if status == PAD_UP {
            press_events(x, y, w, status as int) == Seq::<(KeyEvent, i32)>::empty()
                && press_status(x, y, w, status) == status
        } else {
            press_events(x, y, w, status as int) == seq![(KeyEvent::KeyDown, VK_UP)]
                && press_status(x, y, w, status) == PAD_UP
        },
        w < x < 2 * w && 2 * w < y <= 3 * w ==> if status == PAD_DOWN {
            press_events(x, y, w, status as int) == Seq::<(KeyEvent, i32)>::empty()
                && press_status(x, y, w, status) == status
        } else {
            press_events(x, y, w, status as int) == seq![(KeyEvent::KeyDown, VK_DOWN)]
                && press_status(x, y, w, status) == PAD_DOWN
        },
        x < w && w < y < 2 * w ==> if status == PAD_LEFT {
            press_events(x, y, w, status as int) == Seq::<(KeyEvent, i32)>::empty()
                && press_status(x, y, w, status) == status
        } else {
            press_events(x, y, w, status as int) == seq![(KeyEvent::KeyDown, VK_LEFT)]
                && press_status(x, y, w, status) == PAD_LEFT
        },
        2 * w < x && w < y < 2 * w ==> if status == PAD_RIGHT {
            press_events(x, y, w, status as int) == Seq::<(KeyEvent, i32)>::empty()
                && press_status(x, y, w, status) == status
        } else {
            press_events(x, y, w, status as int) == seq![(KeyEvent::KeyDown, VK_RIGHT)]
                && press_status(x, y, w, status) == PAD_RIGHT
        },
        w < x < 2 * w && w < y < 2 * w ==> press_events(x, y, w, status as int)
            == Seq::<(KeyEvent, i32)>::empty() && press_status(x, y, w, status) == status,
{
    let e = Seq::<(KeyEvent, i32)>::empty();
    assert(e + e =~= e);
    assert(seq![(KeyEvent::KeyDown, VK_UP)] + e =~= seq![(KeyEvent::KeyDown, VK_UP)]);
    assert(e + seq![(KeyEvent::KeyDown, VK_DOWN)] =~= seq![(KeyEvent::KeyDown, VK_DOWN)]);
    assert(e + seq![(KeyEvent::KeyDown, VK_LEFT)] =~= seq![(KeyEvent::KeyDown, VK_LEFT)]);
    assert(e + seq![(KeyEvent::KeyDown, VK_RIGHT)] =~= seq![(KeyEvent::KeyDown, VK_RIGHT)]);
}

/// A read blob's bytes are always queued: the binary queue grows by exactly
/// those bytes at its end, whatever it held before, even the same bytes.
/// A failed read queues nothing. Nothing else changes.
pub proof fn lemma_blob_always_queued(v: ContextView, d: Seq<u8>)
    ensures
        v.blob_loaded(Some(d)).binary_messages.len() == v.binary_messages.len() + 1,
        v.blob_loaded(Some(d)).binary_messages.last() == d,
        v.blob_loaded(Some(d)).binary_messages.take(v.binary_messages.len() as int) == v.binary_messages,
        v.blob_loaded(Some(d)).key_events == v.key_events,
        v.blob_loaded(Some(d)).pressed == v.pressed,
        v.blob_loaded(Some(d)).pad_status == v.pad_status,
        v.blob_loaded(None) == v,
{
    assert(v.blob_loaded(Some(d)).binary_messages.take(v.binary_messages.len() as int) =~= v.binary_messages);
}

/// Button A or B fires in every state: the key queue grows by exactly a
/// key-down of the space bar at its end, whatever direction the cross holds
/// and whatever keys are held; nothing else changes.
pub proof fn lemma_pad_button_always_fires(v: ContextView)
    ensures
        v.pad_button().key_events.len() == v.key_events.len() + 1,
        v.pad_button().key_events.last() == (KeyEvent::KeyDown, VK_SPACE),
        v.pad_button().key_events.take(v.key_events.len() as int) == v.key_events,
        v.pad_button().pad_status == v.pad_status,
        v.pad_button().pressed == v.pressed,
        v.pad_button().binary_messages == v.binary_messages,
{
    assert(v.pad_button().key_events.take(v.key_events.len() as int) =~= v.key_events);
}

/// A pick hands out the whole key queue, however long, and leaves it empty;
/// nothing else changes.
pub proof fn lemma_pick_hands_out_whole_queue(v: ContextView)
    ensures
        v.handed_out(Step::PickKeyEvents) == v.key_events,
        v.apply(Step::PickKeyEvents).key_events.len() == 0,
        v.apply(Step::PickKeyEvents).pressed == v.pressed,
        v.apply(Step::PickKeyEvents).pad_status == v.pad_status,
        v.apply(Step::PickKeyEvents).binary_messages == v.binary_messages,
        v.raised(Step::PickKeyEvents).len() == 0,
{
}

/// A touch of the cross queues exactly the key-downs of the buttons it fires,
/// after the events already queued, and leaves the last fired direction held;
/// keys held on the keyboard and the binary queue are untouched.
pub proof fn lemma_pad_touch_queues_press(v: ContextView, x: int, y: int, w: int)
    ensures
        v.pad_touch(x, y, w).key_events.take(v.key_events.len() as int) == v.key_events,
        v.pad_touch(x, y, w).key_events.skip(v.key_events.len() as int) == press_events(
            x,
            y,
            w,
            v.pad_status as int,
        ),
        v.pad_touch(x, y, w).pad_status == press_status(x, y, w, v.pad_status),
        v.pad_touch(x, y, w).pressed == v.pressed,
        v.pad_touch(x, y, w).binary_messages == v.binary_messages,
{
    let e = v.pad_touch(x, y, w).key_events;
    assert(e.take(v.key_events.len() as int) =~= v.key_events);
    assert(e.skip(v.key_events.len() as int) =~= press_events(x, y, w, v.pad_status as int));
}

} // verus!
