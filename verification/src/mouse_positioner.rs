use vstd::prelude::*;
use vstd::string::*;
use crate::text::{int_decimal, push_decimal_isize};

verus! {

/// The Hammerspoon command that moves the pointer by `(dx, dy)` pixels.
pub open spec fn mouse_position_script_text(dx: int, dy: int) -> Seq<char> {
    "mouseMovement.moveRelative("@ + int_decimal(dx) + ", "@ + int_decimal(dy) + ")"@
}

/// The script that moves the host pointer by a relative delta; `None` for a zero delta.
pub fn hammerspoon_mouse_position_script(dx: isize, dy: isize) -> (script: Option<String>)
    ensures
        (dx == 0 && dy == 0) ==> script is None,
        !(dx == 0 && dy == 0) ==> (script matches Some(s) && s@ == mouse_position_script_text(
            dx as int,
            dy as int,
        )),
{
    if dx == 0 && dy == 0 {
        return None;
    }
    let mut script = String::from_str("mouseMovement.moveRelative(");
    push_decimal_isize(&mut script, dx);
    script.append(", ");
    push_decimal_isize(&mut script, dy);
    script.append(")");
    Some(script)
}

} // verus!
