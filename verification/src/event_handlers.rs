//! Keyboard bookkeeping: how many times each held key has been reported
//! pressed.
use std::collections::HashMap;
use vstd::prelude::*;

verus! {

broadcast use vstd::std_specs::hash::group_hash_axioms;

/// The press counts after one key event: a press adds one to the key's count
/// (starting from zero), a release forgets the key, and an event without a
/// key code changes nothing.
pub open spec fn spec_after_key_event(
    keys: Map<u32, usize>,
    keycode: Option<u32>,
    pressed: bool,
) -> Map<u32, usize> {
    match keycode {
        Some(k) => if pressed {
            keys.insert(
                k,
                if keys.contains_key(k) {
                    (keys[k] + 1) as usize
                } else {
                    1usize
                },
            )
        } else {
            keys.remove(k)
        },
        None => keys,
    }
}

/// Records a key event in `pressed_keys`; see `spec_after_key_event`. A press
/// of a key whose count is already `usize::MAX` is out of range.
pub fn on_key_event(pressed_keys: &mut HashMap<u32, usize>, keycode: Option<u32>, pressed: bool)
    requires
        match keycode {
            Some(k) => pressed && old(pressed_keys)@.contains_key(k) ==> old(pressed_keys)@[k]
                < usize::MAX,
            None => true,
        },
    ensures
        final(pressed_keys)@ == spec_after_key_event(old(pressed_keys)@, keycode, pressed),
{
    match keycode {
        Some(k) => {
            if pressed {
                let count = match pressed_keys.get(&k) {
                    Some(c) => *c + 1,
                    None => 1,
                };
                pressed_keys.insert(k, count);
            } else {
                pressed_keys.remove(&k);
            }
        },
        None => {},
    }
}

/// Pressing a key `n` times without releasing it leaves its count at `n`
/// (counted on top of any presses already recorded), and releasing it
/// forgets it whatever its count was.
pub proof fn lemma_press_then_release(keys: Map<u32, usize>, k: u32)
    requires
        !keys.contains_key(k),
    ensures
        spec_after_key_event(keys, Some(k), true)[k] == 1,
        spec_after_key_event(spec_after_key_event(keys, Some(k), true), Some(k), true)[k] == 2,
        spec_after_key_event(spec_after_key_event(keys, Some(k), true), Some(k), false) =~= keys,
        forall|j: u32|
            j != k ==> #[trigger] spec_after_key_event(keys, Some(k), true).contains_key(j)
                == keys.contains_key(j),
{
}

/// A key event touches only its own key: every other key keeps whether it
/// is held and its count, whether the event is a press or a release and
/// whether the key was already held. A press counts one more than before
/// (one for a key not held), and a release forgets the key.
pub proof fn lemma_key_event_is_local(keys: Map<u32, usize>, k: u32, pressed: bool, j: u32)
    requires
        j != k,
    ensures
        spec_after_key_event(keys, Some(k), pressed).contains_key(j) == keys.contains_key(j),
        keys.contains_key(j) ==> spec_after_key_event(keys, Some(k), pressed)[j] == keys[j],
        pressed ==> spec_after_key_event(keys, Some(k), pressed).contains_key(k),
        pressed && keys.contains_key(k) && keys[k] < usize::MAX ==> spec_after_key_event(
            keys,
            Some(k),
            pressed,
        )[k] == keys[k] + 1,
        pressed && !keys.contains_key(k) ==> spec_after_key_event(keys, Some(k), pressed)[k] == 1,
        !pressed ==> !spec_after_key_event(keys, Some(k), pressed).contains_key(k),
{
}

/// An event without a key code changes no count.
pub proof fn lemma_no_key_no_change(keys: Map<u32, usize>, pressed: bool)
    ensures
        spec_after_key_event(keys, None, pressed) == keys,
{
}

} // verus!
