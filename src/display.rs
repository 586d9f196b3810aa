//! The text that the table rows and the details panels show for a record.
use vstd::prelude::*;

use crate::text::{decimal, decimal_string, texts};
use crate::weapons::{Rank, StatusAilment, Weapon, WeaponView};

verus! {

/// The letter of a rank.
pub open spec fn rank_glyph(r: Rank) -> Seq<char> {
    match r {
        Rank::S => "S"@,
        Rank::A => "A"@,
        Rank::B => "B"@,
        Rank::C => "C"@,
        Rank::D => "D"@,
        Rank::E => "E"@,
    }
}

fn rank_letter(r: Rank) -> (s: &'static str)
    ensures
        s@ == rank_glyph(r),
{
    match r {
        Rank::S => "S",
        Rank::A => "A",
        Rank::B => "B",
        Rank::C => "C",
        Rank::D => "D",
        Rank::E => "E",
    }
}

/// The letter of a scaling slot in the table: `-` where there is none.
pub open spec fn scaling_cell(r: Option<Rank>) -> Seq<char> {
    match r {
        Some(rank) => rank_glyph(rank),
        None => "-"@,
    }
}

/// The short label of damage slot `i` in the details panel.
pub open spec fn damage_label(i: int) -> Seq<char> {
    if i == 0 {
        "Phy"@
    } else if i == 1 {
        "Mag"@
    } else if i == 2 {
        "Fire"@
    } else if i == 3 {
        "Light"@
    } else if i == 4 {
        "Holy"@
    } else {
        "Crit"@
    }
}

fn damage_name(i: usize) -> (s: &'static str)
    ensures
        s@ == damage_label(i as int),
{
    if i == 0 {
        "Phy"
    } else if i == 1 {
        "Mag"
    } else if i == 2 {
        "Fire"
    } else if i == 3 {
        "Light"
    } else if i == 4 {
        "Holy"
    } else {
        "Crit"
    }
}

/// The short label of scaling slot `i` in the details panel.
pub open spec fn attribute_label(i: int) -> Seq<char> {
    if i == 0 {
        "Str"@
    } else if i == 1 {
        "Dex"@
    } else if i == 2 {
        "Int"@
    } else if i == 3 {
        "Fai"@
    } else {
        "Arc"@
    }
}

fn attribute_name(i: usize) -> (s: &'static str)
    ensures
        s@ == attribute_label(i as int),
{
    if i == 0 {
        "Str"
    } else if i == 1 {
        "Dex"
    } else if i == 2 {
        "Int"
    } else if i == 3 {
        "Fai"
    } else {
        "Arc"
    }
}

/// The name of a status ailment in the details panel.
pub open spec fn ailment_label(a: StatusAilment) -> Seq<char> {
    match a {
        StatusAilment::Poison => "Poison"@,
        StatusAilment::ScarletRot => "Scarlet Rot"@,
        StatusAilment::BloodLoss => "Blood Loss"@,
        StatusAilment::Frostbite => "Frostbite"@,
        StatusAilment::Sleep => "Sleep"@,
        StatusAilment::Madness => "Madness"@,
        StatusAilment::DeathBlight => "Death Blight"@,
    }
}

fn ailment_name(a: StatusAilment) -> (s: &'static str)
    ensures
        s@ == ailment_label(a),
{
    match a {
        StatusAilment::Poison => "Poison",
        StatusAilment::ScarletRot => "Scarlet Rot",
        StatusAilment::BloodLoss => "Blood Loss",
        StatusAilment::Frostbite => "Frostbite",
        StatusAilment::Sleep => "Sleep",
        StatusAilment::Madness => "Madness",
        StatusAilment::DeathBlight => "Death Blight",
    }
}

/// The name of a status ailment in the table.
pub open spec fn ailment_column(a: StatusAilment) -> Seq<char> {
    match a {
        StatusAilment::BloodLoss => "Bloodloss"@,
        _ => ailment_label(a),
    }
}

fn ailment_column_name(a: StatusAilment) -> (s: &'static str)
    ensures
        s@ == ailment_column(a),
{
    match a {
        StatusAilment::BloodLoss => "Bloodloss",
        _ => ailment_name(a),
    }
}

/// `label: value`.
pub open spec fn labelled(label: Seq<char>, value: Seq<char>) -> Seq<char> {
    label + ": "@ + value
}

fn labelled_text(label: &str, value: &str) -> (r: String)
    ensures
        r@ == labelled(label@, value@),
{
    let mut r = String::from_str(label);
    r.append(": ");
    r.append(value);
    r
}

/// The lines for the non-zero damage slots among the first `n`, in order.
pub open spec fn damage_lines(power: Seq<u8>, n: int) -> Seq<Seq<char>>
    decreases n,
{
    if n <= 0 {
        Seq::empty()
    } else if power[n - 1] == 0 {
        damage_lines(power, n - 1)
    } else {
        damage_lines(power, n - 1).push(labelled(damage_label(n - 1), decimal(power[n - 1] as nat)))
    }
}

/// The lines for the scaling slots with an entry among the first `n`, in order.
pub open spec fn scaling_lines(scaling: Seq<Option<Rank>>, n: int) -> Seq<Seq<char>>
    decreases n,
{
    if n <= 0 {
        Seq::empty()
    } else {
        match scaling[n - 1] {
            None => scaling_lines(scaling, n - 1),
            Some(r) => scaling_lines(scaling, n - 1).push(
                labelled(attribute_label(n - 1), rank_glyph(r)),
            ),
        }
    }
}

/// `left` and `right` side by side; the shorter one padded with empty lines.
pub open spec fn side_by_side(left: Seq<Seq<char>>, right: Seq<Seq<char>>) -> Seq<
    (Seq<char>, Seq<char>),
> {
    let n = if left.len() >= right.len() {
        left.len()
    } else {
        right.len()
    };
    Seq::new(
        n,
        |i: int|
            (
                if i < left.len() {
                    left[i]
                } else {
                    Seq::empty()
                },
                if i < right.len() {
                    right[i]
                } else {
                    Seq::empty()
                },
            ),
    )
}

/// The ailment line of the details panel: empty where there is none.
pub open spec fn ailment_line(a: Option<(StatusAilment, u8)>) -> Seq<char> {
    match a {
        Some((kind, v)) => labelled(ailment_label(kind), decimal(v as nat)),
        None => Seq::empty(),
    }
}

/// The rows of the details panel for `w`: kind and affinity, then the damage
/// lines beside the scaling lines, then the status ailment.
pub open spec fn detail_rows(w: WeaponView) -> Seq<(Seq<char>, Seq<char>)> {
    seq![
        (
            w.kind,
            match w.attack_affinity {
                Some(s) => s,
                None => Seq::empty(),
            },
        ),
    ] + side_by_side(damage_lines(w.attack_power, 6), scaling_lines(w.scaling, 5)) + seq![
        (ailment_line(w.status_ailment), Seq::<char>::empty()),
    ]
}

/// The text of a list of string pairs.
pub open spec fn pair_texts(v: Seq<(String, String)>) -> Seq<(Seq<char>, Seq<char>)> {
    Seq::new(v.len(), |i: int| (v[i].0@, v[i].1@))
}

fn push_pair(v: &mut Vec<(String, String)>, l: String, r: String)
    ensures
        pair_texts(final(v)@) == pair_texts(old(v)@).push((l@, r@)),
{
    v.push((l, r));
    assert(pair_texts(final(v)@) =~= pair_texts(old(v)@).push((l@, r@)));
}

/// The details panel's content for one record.
pub struct WeaponDetailsWidget {
    pub name: String,
    pub details: Vec<(String, String)>,
}

impl WeaponDetailsWidget {
    /// The panel for `weapon`: its name, then the rows of `detail_rows`.
    pub fn new(weapon: &Weapon) -> (r: WeaponDetailsWidget)
        ensures
            r.name@ == weapon.name@,
            pair_texts(r.details@) == detail_rows(weapon@),
    {
        let ghost w = weapon@;
        let mut details: Vec<(String, String)> = Vec::new();
        let affinity = match &weapon.attack_affinity {
            Some(s) => s.clone(),
            None => String::new(),
        };
        push_pair(&mut details, weapon.kind.clone(), affinity);
        let mut damage: Vec<String> = Vec::new();
        let mut i: usize = 0;
        while i < 6
            invariant
                w == weapon@,
                i <= 6,
                texts(damage@) == damage_lines(w.attack_power, i as int),
            decreases 6 - i,
        {
            let v = weapon.attack_power[i];
            if v != 0 {
                damage.push(labelled_text(damage_name(i), decimal_string(v as u64).as_str()));
            }
            assert(texts(damage@) =~= damage_lines(w.attack_power, i + 1));
            i = i + 1;
        }
        let mut scaling: Vec<String> = Vec::new();
        let mut k: usize = 0;
        while k < 5
            invariant
                w == weapon@,
                k <= 5,
                texts(scaling@) == scaling_lines(w.scaling, k as int),
            decreases 5 - k,
        {
            match weapon.scaling[k].1 {
                Some(rank) => {
                    scaling.push(labelled_text(attribute_name(k), rank_letter(rank)));
                },
                None => {},
            }
            assert(texts(scaling@) =~= scaling_lines(w.scaling, k + 1));
            k = k + 1;
        }
        let rows = if damage.len() >= scaling.len() {
            damage.len()
        } else {
            scaling.len()
        };
        let ghost head = pair_texts(details@);
        let ghost both = side_by_side(texts(damage@), texts(scaling@));
        let mut j: usize = 0;
        while j < rows
            invariant
                rows == both.len(),
                both == side_by_side(texts(damage@), texts(scaling@)),
                j <= rows,
                pair_texts(details@) == head + both.subrange(0, j as int),
            decreases rows - j,
        {
            let l = if j < damage.len() {
                damage[j].clone()
            } else {
                String::new()
            };
            let r = if j < scaling.len() {
                scaling[j].clone()
            } else {
                String::new()
            };
            push_pair(&mut details, l, r);
            assert(head + both.subrange(0, j + 1) =~= (head + both.subrange(0, j as int)).push(
                both[j as int],
            ));
            j = j + 1;
        }
        let ailment = match weapon.status_ailment {
            Some((kind, v)) => labelled_text(ailment_name(kind), decimal_string(v as u64).as_str()),
            None => String::new(),
        };
        push_pair(&mut details, ailment, String::new());
        assert(both.subrange(0, rows as int) =~= both);
        assert(pair_texts(details@) =~= detail_rows(w));
        WeaponDetailsWidget { name: weapon.name.clone(), details }
    }
}

impl Default for WeaponDetailsWidget {
    /// The panel before any scan: a placeholder title and no rows.
    fn default() -> (r: WeaponDetailsWidget)
        ensures
            r.name@ == "No scanning"@,
            r.details@.len() == 0,
    {
        WeaponDetailsWidget { name: String::from_str("No scanning"), details: Vec::new() }
    }
}

/// A value of a number column: right-aligned in three characters.
pub open spec fn padded(n: nat) -> Seq<char> {
    if n < 10 {
        "  "@ + decimal(n)
    } else if n < 100 {
        " "@ + decimal(n)
    } else {
        decimal(n)
    }
}

/// The first `n` values of `values`, padded and joined by single spaces.
pub open spec fn joined(values: Seq<u8>, n: int) -> Seq<char>
    decreases n,
{
    if n <= 0 {
        Seq::empty()
    } else if n == 1 {
        padded(values[0] as nat)
    } else {
        joined(values, n - 1) + " "@ + padded(values[n - 1] as nat)
    }
}

fn padded_text(n: u8) -> (r: String)
    ensures
        r@ == padded(n as nat),
{
    let digits = decimal_string(n as u64);
    if n < 10 {
        let mut r = String::from_str("  ");
        r.append(digits.as_str());
        r
    } else if n < 100 {
        let mut r = String::from_str(" ");
        r.append(digits.as_str());
        r
    } else {
        digits
    }
}

fn joined_text(values: &[u8; 6]) -> (r: String)
    ensures
        r@ == joined(values@, 6),
{
    let mut r = padded_text(values[0]);
    let mut i: usize = 1;
    while i < 6
        invariant
            1 <= i <= 6,
            r@ == joined(values@, i as int),
        decreases 6 - i,
    {
        r.append(" ");
        r.append(padded_text(values[i]).as_str());
        i = i + 1;
    }
    r
}

/// The table's ailment column: `-` where there is none.
pub open spec fn ailment_cell(a: Option<(StatusAilment, u8)>) -> Seq<char> {
    match a {
        Some((kind, v)) => ailment_column(kind) + " "@ + decimal(v as nat),
        None => "-"@,
    }
}

/// The cells of a record's table row: name, affinity (`Unknown` where there
/// is none), the five scaling letters, attack power, guarded negation and
/// status ailment.
pub open spec fn row_cells(w: WeaponView) -> Seq<Seq<char>> {
    seq![
        w.name,
        match w.attack_affinity {
            Some(s) => s,
            None => "Unknown"@,
        },
        scaling_cell(w.scaling[0]),
        scaling_cell(w.scaling[1]),
        scaling_cell(w.scaling[2]),
        scaling_cell(w.scaling[3]),
        scaling_cell(w.scaling[4]),
        joined(w.attack_power, 6),
        joined(w.guarded_negation, 6),
        ailment_cell(w.status_ailment),
    ]
}

fn scaling_text(r: Option<Rank>) -> (s: String)
    ensures
        s@ == scaling_cell(r),
{
    match r {
        Some(rank) => String::from_str(rank_letter(rank)),
        None => String::from_str("-"),
    }
}

/// The cells of `weapon`'s row in the table.
pub fn table_row(weapon: &Weapon) -> (r: Vec<String>)
    ensures
        texts(r@) == row_cells(weapon@),
{
    let ghost w = weapon@;
    let affinity = match &weapon.attack_affinity {
        Some(s) => s.clone(),
        None => String::from_str("Unknown"),
    };
    let ailment = match weapon.status_ailment {
        Some((kind, v)) => {
            let mut s = String::from_str(ailment_column_name(kind));
            s.append(" ");
            s.append(decimal_string(v as u64).as_str());
            s
        },
        None => String::from_str("-"),
    };
    let r = vec![
        weapon.name.clone(),
        affinity,
        scaling_text(weapon.scaling[0].1),
        scaling_text(weapon.scaling[1].1),
        scaling_text(weapon.scaling[2].1),
        scaling_text(weapon.scaling[3].1),
        scaling_text(weapon.scaling[4].1),
        joined_text(&weapon.attack_power),
        joined_text(&weapon.guarded_negation),
        ailment,
    ];
    assert(texts(r@) =~= row_cells(w));
    r
}

} // verus!
