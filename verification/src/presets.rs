//! Built-in ten-band presets: gains in whole dB on the ISO octave bands.
//! Applying one keeps cutoffs and Q.

use vstd::prelude::*;

use crate::equalizer::{band_gain, db_as_tenths, EqView, GAIN_MAX_TENTHS, GAIN_MIN_TENTHS};
use crate::settings::EQ_BANDS;
use crate::text::same_text;

verus! {

/// A preset.
pub struct Preset {
    pub name: &'static str,
    pub gains_db: [i32; EQ_BANDS],
}

/// Number of presets.
pub const PRESET_COUNT: usize = 9;

/// The name of preset `i`.
pub open spec fn preset_name(i: int) -> Seq<char> {
    if i == 0 {
        "flat"@
    } else if i == 1 {
        "rock"@
    } else if i == 2 {
        "pop"@
    } else if i == 3 {
        "jazz"@
    } else if i == 4 {
        "classical"@
    } else if i == 5 {
        "electronic"@
    } else if i == 6 {
        "vocal"@
    } else if i == 7 {
        "bass-boost"@
    } else {
        "treble-boost"@
    }
}

/// The gains of preset `i`, in dB.
pub open spec fn preset_gains(i: int) -> Seq<i32> {
    if i == 0 {
        seq![0i32, 0, 0, 0, 0, 0, 0, 0, 0, 0]
    } else if i == 1 {
        seq![5i32, 4, 3, 1, -1i32, -1i32, 1, 3, 4, 5]
    } else if i == 2 {
        seq![-1i32, 1, 3, 4, 3, 0, -1i32, -1i32, 1, 2]
    } else if i == 3 {
        seq![3i32, 2, 1, 2, -1i32, -1i32, 0, 1, 2, 3]
    } else if i == 4 {
        seq![4i32, 3, 2, 0, -1i32, -1i32, 0, 2, 3, 4]
    } else if i == 5 {
        seq![5i32, 4, 1, 0, -2i32, 1, 1, 2, 4, 5]
    } else if i == 6 {
        seq![-2i32, -1i32, 0, 1, 3, 4, 3, 2, 1, 0]
    } else if i == 7 {
        seq![6i32, 5, 4, 2, 1, 0, 0, 0, 0, 0]
    } else {
        seq![0i32, 0, 0, 0, 0, 1, 2, 4, 5, 6]
    }
}

/// Preset number `index`.
pub fn preset(index: usize) -> (preset: Preset)
    requires
        index < PRESET_COUNT,
    ensures
        preset.name@ == preset_name(index as int),
        preset.gains_db@ == preset_gains(index as int),
{
    if index == 0 {
        let gains_db: [i32; 10] = [0, 0, 0, 0, 0, 0, 0, 0, 0, 0];
        assert(gains_db@ =~= preset_gains(0));
        Preset { name: "flat", gains_db }
    } else if index == 1 {
        let gains_db: [i32; 10] = [5, 4, 3, 1, -1, -1, 1, 3, 4, 5];
        assert(gains_db@ =~= preset_gains(1));
        Preset { name: "rock", gains_db }
    } else if index == 2 {
        let gains_db: [i32; 10] = [-1, 1, 3, 4, 3, 0, -1, -1, 1, 2];
        assert(gains_db@ =~= preset_gains(2));
        Preset { name: "pop", gains_db }
    } else if index == 3 {
        let gains_db: [i32; 10] = [3, 2, 1, 2, -1, -1, 0, 1, 2, 3];
        assert(gains_db@ =~= preset_gains(3));
        Preset { name: "jazz", gains_db }
    } else if index == 4 {
        let gains_db: [i32; 10] = [4, 3, 2, 0, -1, -1, 0, 2, 3, 4];
        assert(gains_db@ =~= preset_gains(4));
        Preset { name: "classical", gains_db }
    } else if index == 5 {
        let gains_db: [i32; 10] = [5, 4, 1, 0, -2, 1, 1, 2, 4, 5];
        assert(gains_db@ =~= preset_gains(5));
        Preset { name: "electronic", gains_db }
    } else if index == 6 {
        let gains_db: [i32; 10] = [-2, -1, 0, 1, 3, 4, 3, 2, 1, 0];
        assert(gains_db@ =~= preset_gains(6));
        Preset { name: "vocal", gains_db }
    } else if index == 7 {
        let gains_db: [i32; 10] = [6, 5, 4, 2, 1, 0, 0, 0, 0, 0];
        assert(gains_db@ =~= preset_gains(7));
        Preset { name: "bass-boost", gains_db }
    } else {
        let gains_db: [i32; 10] = [0, 0, 0, 0, 0, 1, 2, 4, 5, 6];
        assert(gains_db@ =~= preset_gains(8));
        Preset { name: "treble-boost", gains_db }
    }
}

/// The number of the preset called `name`.
pub fn find(name: &str) -> (found: Option<usize>)
    ensures
        found matches Some(i) ==> {
            &&& i < PRESET_COUNT
            &&& preset_name(i as int) == name@
            &&& forall|k: int| 0 <= k < i ==> preset_name(k) != name@
        },
        found is None ==> forall|i: int| 0 <= i < PRESET_COUNT ==> preset_name(i) != name@,
{
    let mut i: usize = 0;
    while i < PRESET_COUNT
        invariant
            i <= PRESET_COUNT,
            forall|k: int| 0 <= k < i ==> preset_name(k) != name@,
        decreases PRESET_COUNT - i,
    {
        if same_text(preset(i).name, name) {
            return Some(i);
        }
        i += 1;
    }
    None
}

/// The names of the first `n` presets, with a comma and a space between them.
pub open spec fn joined_names(n: nat) -> Seq<char>
    decreases n,
{
    if n == 0 {
        seq![]
    } else if n == 1 {
        preset_name(0)
    } else {
        joined_names((n - 1) as nat) + ", "@ + preset_name(n - 1)
    }
}

/// The names of all presets, with a comma and a space between them.
pub fn names() -> (text: String)
    ensures
        text@ == joined_names(PRESET_COUNT as nat),
{
    let mut text = preset(0).name.to_owned();
    let mut i: usize = 1;
    while i < PRESET_COUNT
        invariant
            1 <= i <= PRESET_COUNT,
            text@ == joined_names(i as nat),
        decreases PRESET_COUNT - i,
    {
        text.append(", ");
        text.append(preset(i).name);
        i += 1;
    }
    text
}

/// No two presets share a name, so a preset is found under its own name.
pub proof fn names_differ(i: int, j: int)
    requires
        0 <= i < j < PRESET_COUNT,
    ensures
        preset_name(i) != preset_name(j),
{
    reveal_strlit("flat");
    reveal_strlit("rock");
    reveal_strlit("pop");
    reveal_strlit("jazz");
    reveal_strlit("classical");
    reveal_strlit("electronic");
    reveal_strlit("vocal");
    reveal_strlit("bass-boost");
    reveal_strlit("treble-boost");
    if preset_name(i).len() == preset_name(j).len() {
        assert(preset_name(i)[0] != preset_name(j)[0]);
    }
}

/// Preset gains are within the band range, so applying a preset gives exactly
/// its gains.
pub proof fn gains_apply_exactly(i: int, view: EqView, band: int)
    requires
        0 <= i < PRESET_COUNT,
        view.bands.len() == EQ_BANDS,
        0 <= band < EQ_BANDS,
    ensures
        preset_gains(i).len() == EQ_BANDS,
        view.set_gains(db_as_tenths(preset_gains(i))).bands[band].gain == preset_gains(i)[band]
            * 10,
{
    assert(-6 <= preset_gains(i)[band] <= 6);
    assert(GAIN_MIN_TENTHS <= preset_gains(i)[band] * 10 <= GAIN_MAX_TENTHS);
    assert(band_gain(preset_gains(i)[band] * 10) == preset_gains(i)[band] * 10);
}

/// The presets by name, in the order in which the keys pass through them, with
/// the gain of each band in dB.
pub proof fn presets_by_name(i: int, name: Seq<char>, gains: Seq<i32>)
    requires
        0 <= i < PRESET_COUNT,
        name == preset_name(i),
        gains == preset_gains(i),
    ensures
        name == "flat"@ ==> i == 0 && gains == seq![0i32, 0i32, 0i32, 0i32, 0i32, 0i32, 0i32, 0i32, 0i32, 0i32],
        name == "rock"@ ==> i == 1 && gains == seq![5i32, 4i32, 3i32, 1i32, -1i32, -1i32, 1i32, 3i32, 4i32, 5i32],
        name == "pop"@ ==> i == 2 && gains == seq![-1i32, 1i32, 3i32, 4i32, 3i32, 0i32, -1i32, -1i32, 1i32, 2i32],
        name == "jazz"@ ==> i == 3 && gains == seq![3i32, 2i32, 1i32, 2i32, -1i32, -1i32, 0i32, 1i32, 2i32, 3i32],
        name == "classical"@ ==> i == 4 && gains == seq![4i32, 3i32, 2i32, 0i32, -1i32, -1i32, 0i32, 2i32, 3i32, 4i32],
        name == "electronic"@ ==> i == 5 && gains == seq![5i32, 4i32, 1i32, 0i32, -2i32, 1i32, 1i32, 2i32, 4i32, 5i32],
        name == "vocal"@ ==> i == 6 && gains == seq![-2i32, -1i32, 0i32, 1i32, 3i32, 4i32, 3i32, 2i32, 1i32, 0i32],
        name == "bass-boost"@ ==> i == 7 && gains == seq![6i32, 5i32, 4i32, 2i32, 1i32, 0i32, 0i32, 0i32, 0i32, 0i32],
        name == "treble-boost"@ ==> i == 8 && gains == seq![0i32, 0i32, 0i32, 0i32, 0i32, 1i32, 2i32, 4i32, 5i32, 6i32],
        gains.len() == 10,
        PRESET_COUNT == 9,
{
    reveal_strlit("flat");
    reveal_strlit("rock");
    reveal_strlit("pop");
    reveal_strlit("jazz");
    reveal_strlit("classical");
    reveal_strlit("electronic");
    reveal_strlit("vocal");
    reveal_strlit("bass-boost");
    reveal_strlit("treble-boost");
    assert(name[0] == (if i == 0 {
        'f'
    } else if i == 1 {
        'r'
    } else if i == 2 {
        'p'
    } else if i == 3 {
        'j'
    } else if i == 4 {
        'c'
    } else if i == 5 {
        'e'
    } else if i == 6 {
        'v'
    } else if i == 7 {
        'b'
    } else {
        't'
    }));
}

/// Every name of a preset stands for one.
pub proof fn every_preset_has_its_number(i: int)
    ensures
        i == 0 ==> preset_name(i) == "flat"@,
        i == 1 ==> preset_name(i) == "rock"@,
        i == 2 ==> preset_name(i) == "pop"@,
        i == 3 ==> preset_name(i) == "jazz"@,
        i == 4 ==> preset_name(i) == "classical"@,
        i == 5 ==> preset_name(i) == "electronic"@,
        i == 6 ==> preset_name(i) == "vocal"@,
        i == 7 ==> preset_name(i) == "bass-boost"@,
        i == 8 ==> preset_name(i) == "treble-boost"@,
{
}

/// The list of names tells every preset, in order.
pub proof fn names_are_listed()
    ensures
        joined_names(PRESET_COUNT as nat)
            == "flat, rock, pop, jazz, classical, electronic, vocal, bass-boost, treble-boost"@,
{
    reveal_strlit("flat");
    reveal_strlit("rock");
    reveal_strlit("pop");
    reveal_strlit("jazz");
    reveal_strlit("classical");
    reveal_strlit("electronic");
    reveal_strlit("vocal");
    reveal_strlit("bass-boost");
    reveal_strlit("treble-boost");
    reveal_strlit(", ");
    reveal_strlit("flat, rock, pop, jazz, classical, electronic, vocal, bass-boost, treble-boost");
    reveal_with_fuel(joined_names, 10);
    assert(joined_names(PRESET_COUNT as nat)
        =~= "flat, rock, pop, jazz, classical, electronic, vocal, bass-boost, treble-boost"@);
}

} // verus!
