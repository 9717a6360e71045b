//! Boundary conversion between three-player events and mjai, which pads three seats to four
//! entries. The rest of the library never sees a fourth seat.

use vstd::prelude::*;
use crate::text::{dec_i64, dec_int, join2};

verus! {

/// Three scores in mjai's four entries, the fourth 0.
pub fn scores_3_to_mjai4(s: [i32; 3]) -> (r: [i32; 4])
    ensures
        r@ == seq![s@[0], s@[1], s@[2], 0i32],
{
    let r = [s[0], s[1], s[2], 0];
    assert(r@ =~= seq![s@[0], s@[1], s@[2], 0i32]);
    r
}

/// mjai's four entries as three scores; an error where the fourth is not 0.
pub fn scores_mjai4_to_3(s: [i32; 4]) -> (r: Result<[i32; 3], String>)
    ensures
        match r {
            Ok(t) => s@[3] == 0 && t@ == seq![s@[0], s@[1], s@[2]],
            Err(e) => s@[3] != 0 && e@ == "3p mjai fourth seat placeholder must be 0, got "@ + dec_int(s@[3] as int),
        },
{
    if s[3] != 0 {
        return Err(join2("3p mjai fourth seat placeholder must be 0, got ", dec_i64(s[3] as i64).as_str()));
    }
    let t = [s[0], s[1], s[2]];
    assert(t@ =~= seq![s@[0], s@[1], s@[2]]);
    Ok(t)
}

/// Three deltas in mjai's four entries, the fourth 0.
pub fn deltas_3_to_mjai4(d: [i32; 3]) -> (r: [i32; 4])
    ensures
        r@ == seq![d@[0], d@[1], d@[2], 0i32],
{
    let r = [d[0], d[1], d[2], 0];
    assert(r@ =~= seq![d@[0], d@[1], d@[2], 0i32]);
    r
}

/// Scores padded to four entries and read back are the same scores.
pub proof fn padded_scores_are_read_back(s: [i32; 3], padded: [i32; 4], back: [i32; 3])
    requires
        padded@ == seq![s@[0], s@[1], s@[2], 0i32],
        back@ == seq![padded@[0], padded@[1], padded@[2]],
    ensures
        padded@[3] == 0,
        back == s,
{
    assert(back@ =~= s@);
    assert(back =~= s);
}

} // verus!
