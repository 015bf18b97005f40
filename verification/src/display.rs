//! The Touch Bar display: recognising it among the DRM and input devices,
//! and which widgets a partial redraw repaints.
use vstd::prelude::*;
use crate::parse::starts_with;
use crate::text::{chars_of, contains, str_contains};

verus! {

/// A display mode is the Touch Bar's when it is at least thirty times as
/// tall as it is wide (whole multiples: the panel stands in portrait).
pub open spec fn spec_looks_like_touchbar(width: u16, height: u16) -> bool {
    height as int / width as int >= 30
}

/// Whether a connector's first mode, `width` by `height` pixels, is the
/// Touch Bar's. A mode has a non-zero width.
pub fn looks_like_touchbar(width: u16, height: u16) -> (b: bool)
    requires
        width > 0,
    ensures
        b == spec_looks_like_touchbar(width, height),
{
    height / width >= 30
}

/// Whether a `/dev/dri` entry is a card node: its name starts with "card".
pub fn is_card_node(name: &str) -> (b: bool)
    ensures
        b == starts_with(name@, "card"@),
{
    proof {
        reveal_strlit("card");
    }
    let cs = chars_of(name);
    let b = cs.len() >= 4 && cs[0] == 'c' && cs[1] == 'a' && cs[2] == 'r' && cs[3] == 'd';
    proof {
        if cs@.len() >= 4 {
            let head = cs@.subrange(0, 4);
            assert(head[0] == cs@[0] && head[1] == cs@[1] && head[2] == cs@[2] && head[3] == cs@[3]);
            if b {
                assert(head =~= "card"@);
            }
        }
    }
    b
}

/// Whether an input device is the Touch Bar's digitizer: its name holds
/// " Touch Bar".
pub fn is_touchbar_digitizer(name: &str) -> (b: bool)
    ensures
        b == contains(name@, " Touch Bar"@),
{
    str_contains(name, " Touch Bar")
}

/// Whether some widget at or before position `i` changed.
pub open spec fn changed_up_to(changed: Seq<bool>, i: int) -> bool {
    exists|j: int| 0 <= j <= i && #[trigger] changed[j]
}

/// Which widgets a partial redraw repaints, given which changed: every
/// widget from the first changed one on (the ones after it may move).
pub fn redraw_from_first_changed(changed: &Vec<bool>) -> (r: Vec<bool>)
    ensures
        r@.len() == changed@.len(),
        forall|i: int| 0 <= i < r@.len() ==> #[trigger] r@[i] == changed_up_to(changed@, i),
{
    let mut r: Vec<bool> = Vec::new();
    let mut seen = false;
    let mut i: usize = 0;
    while i < changed.len()
        invariant
            i <= changed@.len(),
            r@.len() == i,
            seen == (exists|j: int| 0 <= j < i && #[trigger] changed@[j]),
            forall|k: int| 0 <= k < i ==> #[trigger] r@[k] == changed_up_to(changed@, k),
        decreases changed@.len() - i,
    {
        let now = seen || changed[i];
        proof {
            if now {
                if changed@[i as int] {
                    assert(changed_up_to(changed@, i as int));
                } else {
                    let j = choose|j: int| 0 <= j < i && #[trigger] changed@[j];
                    assert(changed_up_to(changed@, i as int));
                }
            } else {
                assert forall|j: int| 0 <= j <= i implies !#[trigger] changed@[j] by {
                    if j < i {
                        assert(!changed@[j]);
                    }
                }
            }
        }
        r.push(now);
        seen = now;
        i = i + 1;
    }
    r
}

} // verus!
