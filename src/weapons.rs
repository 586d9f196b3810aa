//! The weapon record and the parser that builds it from a catalogue entry.
use vstd::prelude::*;

use crate::json::Json;
use crate::text::same_text;

verus! {

/// One damage or negation value.
pub type ElementValue = u8;

/// A scaling category. A record holds one scaling slot for each, in the order
/// in which they are declared here.
#[derive(Clone, Copy, Debug, PartialEq, Eq, Structural)]
pub enum Attribute {
    Strength,
    Dexterity,
    Intelligence,
    Faith,
    Arcane,
}

/// A scaling letter. `S` is the best and sorts first, `E` the weakest.
#[derive(Clone, Copy, Debug, PartialEq, Eq, Structural)]
pub enum Rank {
    S,
    A,
    B,
    C,
    D,
    E,
}

/// A status effect that a weapon can inflict.
#[derive(Clone, Copy, Debug, PartialEq, Eq, Structural)]
pub enum StatusAilment {
    Poison,
    ScarletRot,
    BloodLoss,
    Frostbite,
    Sleep,
    Madness,
    DeathBlight,
}

/// The number of scaling slots of a record.
pub const ATTRIBUTE_COUNT: usize = 5;

/// The attribute of scaling slot `i`.
pub open spec fn attribute_at(i: int) -> Attribute {
    if i == 0 {
        Attribute::Strength
    } else if i == 1 {
        Attribute::Dexterity
    } else if i == 2 {
        Attribute::Intelligence
    } else if i == 3 {
        Attribute::Faith
    } else {
        Attribute::Arcane
    }
}

impl Attribute {
    /// The scaling slot of this attribute.
    pub open spec fn slot(self) -> int {
        match self {
            Attribute::Strength => 0,
            Attribute::Dexterity => 1,
            Attribute::Intelligence => 2,
            Attribute::Faith => 3,
            Attribute::Arcane => 4,
        }
    }

    pub fn index(&self) -> (r: usize)
        ensures
            r as int == self.slot(),
            r < ATTRIBUTE_COUNT,
            attribute_at(r as int) == *self,
    {
        match self {
            Attribute::Strength => 0,
            Attribute::Dexterity => 1,
            Attribute::Intelligence => 2,
            Attribute::Faith => 3,
            Attribute::Arcane => 4,
        }
    }
}

impl Rank {
    /// The place of this rank in the order S, A, B, C, D, E.
    pub open spec fn order(self) -> nat {
        match self {
            Rank::S => 0,
            Rank::A => 1,
            Rank::B => 2,
            Rank::C => 3,
            Rank::D => 4,
            Rank::E => 5,
        }
    }
}

/// The rank that has place `i` in the order S, A, B, C, D, E.
pub open spec fn rank_at(i: nat) -> Rank {
    if i == 0 {
        Rank::S
    } else if i == 1 {
        Rank::A
    } else if i == 2 {
        Rank::B
    } else if i == 3 {
        Rank::C
    } else if i == 4 {
        Rank::D
    } else {
        Rank::E
    }
}

pub fn rank_with_position(i: usize) -> (r: Rank)
    requires
        i < 6,
    ensures
        r == rank_at(i as nat),
        r.order() == i,
{
    if i == 0 {
        Rank::S
    } else if i == 1 {
        Rank::A
    } else if i == 2 {
        Rank::B
    } else if i == 3 {
        Rank::C
    } else if i == 4 {
        Rank::D
    } else {
        Rank::E
    }
}

/// One catalogue entry.
pub struct Weapon {
    pub name: String,
    pub passive: Option<String>,
    pub kind: String,
    pub attack_affinity: Option<String>,
    pub range: Option<u64>,
    pub attack_power: [ElementValue; 6],
    pub guarded_negation: [ElementValue; 6],
    pub scaling: [(Attribute, Option<Rank>); 5],
    pub status_ailment: Option<(StatusAilment, u8)>,
    pub active: Option<String>,
}

/// A weapon record as plain values. `scaling[i]` is the rank of the attribute
/// of slot `i`.
pub struct WeaponView {
    pub name: Seq<char>,
    pub passive: Option<Seq<char>>,
    pub kind: Seq<char>,
    pub attack_affinity: Option<Seq<char>>,
    pub range: Option<u64>,
    pub attack_power: Seq<u8>,
    pub guarded_negation: Seq<u8>,
    pub scaling: Seq<Option<Rank>>,
    pub status_ailment: Option<(StatusAilment, u8)>,
    pub active: Option<Seq<char>>,
}

pub open spec fn opt_text(o: Option<String>) -> Option<Seq<char>> {
    match o {
        Some(s) => Some(s@),
        None => None,
    }
}

impl View for Weapon {
    type V = WeaponView;

    open spec fn view(&self) -> WeaponView {
        WeaponView {
            name: self.name@,
            passive: opt_text(self.passive),
            kind: self.kind@,
            attack_affinity: opt_text(self.attack_affinity),
            range: self.range,
            attack_power: self.attack_power@,
            guarded_negation: self.guarded_negation@,
            scaling: Seq::new(5, |i: int| self.scaling@[i].1),
            status_ailment: self.status_ailment,
            active: opt_text(self.active),
        }
    }
}

impl Weapon {
    /// Slot `i` of `scaling` is labelled with the attribute of slot `i`.
    pub open spec fn wf(&self) -> bool {
        forall|i: int| 0 <= i < 5 ==> #[trigger] self.scaling@[i].0 == attribute_at(i)
    }
}

/// A field of a catalogue entry.
#[derive(Clone, Copy, Debug, PartialEq, Eq, Structural)]
pub enum Field {
    Name,
    Kind,
    Passive,
    AttackAffinity,
    Active,
    Range,
    AttackPower,
    GuardedNegation,
    Scaling,
    StatusAilment,
}

/// Why a catalogue entry could not be read.
#[derive(Clone, Copy, Debug, PartialEq, Eq, Structural)]
pub enum FieldError {
    /// A required text, or the name of a present reference, is not a string.
    NotAString(Field),
    /// A number is missing where one is owed, or lies outside its range.
    BadNumber(Field),
    /// The field is neither null nor an array.
    NotAList(Field),
    /// A scaling letter other than S, A, B, C, D, E.
    UnknownRank,
    /// A scaling attribute outside the known set.
    UnknownAttribute,
    /// A status ailment outside the known set.
    UnknownAilment,
}

/// The rank that a scaling letter names.
pub open spec fn rank_named(s: Seq<char>) -> Option<Rank> {
    if s == "S"@ {
        Some(Rank::S)
    } else if s == "A"@ {
        Some(Rank::A)
    } else if s == "B"@ {
        Some(Rank::B)
    } else if s == "C"@ {
        Some(Rank::C)
    } else if s == "D"@ {
        Some(Rank::D)
    } else if s == "E"@ {
        Some(Rank::E)
    } else {
        None
    }
}

/// The scaling slot of the attribute that `s` names.
pub open spec fn attribute_named(s: Seq<char>) -> Option<int> {
    if s == "Strength"@ {
        Some(0)
    } else if s == "Dexterity"@ {
        Some(1)
    } else if s == "Intelligence"@ {
        Some(2)
    } else if s == "Faith"@ {
        Some(3)
    } else if s == "Arcane"@ {
        Some(4)
    } else {
        None
    }
}

/// The status ailment that `s` names.
pub open spec fn ailment_named(s: Seq<char>) -> Option<StatusAilment> {
    if s == "Poison"@ {
        Some(StatusAilment::Poison)
    } else if s == "Scarlet Rot"@ {
        Some(StatusAilment::ScarletRot)
    } else if s == "Blood Loss"@ {
        Some(StatusAilment::BloodLoss)
    } else if s == "Frostbite"@ {
        Some(StatusAilment::Frostbite)
    } else if s == "Sleep"@ {
        Some(StatusAilment::Sleep)
    } else if s == "Madness"@ {
        Some(StatusAilment::Madness)
    } else if s == "Death Blight"@ {
        Some(StatusAilment::DeathBlight)
    } else {
        None
    }
}

/// A number from 0 to 255.
pub open spec fn small_number(v: Json) -> Option<u8> {
    match v {
        Json::Number(Some(n)) => if n <= 255 {
            Some(n as u8)
        } else {
            None
        },
        _ => None,
    }
}

/// A required text field `key` of `data`.
pub open spec fn required_text(data: Json, key: Seq<char>, f: Field) -> Result<
    Seq<char>,
    FieldError,
> {
    match data.field(key).text() {
        Some(s) => Ok(s),
        None => Err(FieldError::NotAString(f)),
    }
}

/// An optional reference `key` of `data`: absent where the node is null,
/// else the node's `name`, which must be a string.
pub open spec fn reference_name(data: Json, key: Seq<char>, f: Field) -> Result<
    Option<Seq<char>>,
    FieldError,
> {
    let node = data.field(key);
    if node is Null {
        Ok(None)
    } else {
        match node.field("name"@).text() {
            Some(s) => Ok(Some(s)),
            None => Err(FieldError::NotAString(f)),
        }
    }
}

/// A required reference `key` of `data`: the node's `name`, a string.
pub open spec fn required_reference(data: Json, key: Seq<char>, f: Field) -> Result<
    Seq<char>,
    FieldError,
> {
    match data.field(key).field("name"@).text() {
        Some(s) => Ok(s),
        None => Err(FieldError::NotAString(f)),
    }
}

/// Slot `i` of an element list: 0 where its `value` is null.
pub open spec fn element_slot(list: Json, i: int) -> Option<u8> {
    let v = list.item(i).field("value"@);
    if v is Null {
        Some(0)
    } else {
        small_number(v)
    }
}

/// The six slots of an element list.
pub open spec fn element_profile(list: Json, f: Field) -> Result<Seq<u8>, FieldError> {
    if forall|i: int| 0 <= i < 6 ==> #[trigger] element_slot(list, i) is Some {
        Ok(Seq::new(6, |i: int| element_slot(list, i)->0))
    } else {
        Err(FieldError::BadNumber(f))
    }
}

/// The optional range of `data`.
pub open spec fn range_of(data: Json) -> Result<Option<u64>, FieldError> {
    match data.field("range"@) {
        Json::Null => Ok(None),
        Json::Number(Some(n)) => Ok(Some(n)),
        _ => Err(FieldError::BadNumber(Field::Range)),
    }
}

/// `slots` after one scaling entry `{value, attribute: {name}}`.
pub open spec fn apply_scaling(slots: Seq<Option<Rank>>, entry: Json) -> Result<
    Seq<Option<Rank>>,
    FieldError,
> {
    let rank = match entry.field("value"@).text() {
        Some(s) => rank_named(s),
        None => None,
    };
    let slot = match entry.field("attribute"@).field("name"@).text() {
        Some(s) => attribute_named(s),
        None => None,
    };
    if rank is None {
        Err(FieldError::UnknownRank)
    } else if slot is None {
        Err(FieldError::UnknownAttribute)
    } else {
        Ok(slots.update(slot->0, rank))
    }
}

/// No scaling in any slot.
pub open spec fn no_scaling() -> Seq<Option<Rank>> {
    Seq::new(5, |i: int| None)
}

/// The slots after the scaling entries `items`, applied in order.
pub open spec fn scaling_entries(items: Seq<Json>) -> Result<Seq<Option<Rank>>, FieldError>
    decreases items.len(),
{
    if items.len() == 0 {
        Ok(no_scaling())
    } else {
        match scaling_entries(items.drop_last()) {
            Ok(slots) => apply_scaling(slots, items.last()),
            Err(e) => Err(e),
        }
    }
}

/// The scaling slots of `data`: none where `attributeScaling` is null.
pub open spec fn scaling_of(data: Json) -> Result<Seq<Option<Rank>>, FieldError> {
    match data.field("attributeScaling"@) {
        Json::Null => Ok(no_scaling()),
        Json::Array(items) => scaling_entries(items@),
        _ => Err(FieldError::NotAList(Field::Scaling)),
    }
}

/// The status ailment of `data`: present exactly where its `value` is not null.
pub open spec fn ailment_of(data: Json) -> Result<Option<(StatusAilment, u8)>, FieldError> {
    let node = data.field("statusAilment"@);
    let v = node.field("value"@);
    if v is Null {
        Ok(None)
    } else {
        match small_number(v) {
            None => Err(FieldError::BadNumber(Field::StatusAilment)),
            Some(n) => match node.field("statusAilmentType"@).field("name"@).text() {
                Some(s) => match ailment_named(s) {
                    Some(k) => Ok(Some((k, n))),
                    None => Err(FieldError::UnknownAilment),
                },
                None => Err(FieldError::UnknownAilment),
            },
        }
    }
}

/// The record that a catalogue entry describes, or the first field (in the
/// order name, passive, kind, affinity, attack power, guarded negation,
/// scaling, ailment, active skill, range) that cannot be read.
pub open spec fn parse_weapon(data: Json) -> Result<WeaponView, FieldError> {
    let name = required_text(data, "name"@, Field::Name);
    let passive = reference_name(data, "weaponPassive"@, Field::Passive);
    let kind = required_reference(data, "weaponType"@, Field::Kind);
    let affinity = reference_name(data, "attackAffinity"@, Field::AttackAffinity);
    let power = element_profile(data.field("attackPower"@), Field::AttackPower);
    let negation = element_profile(data.field("guardedNegation"@), Field::GuardedNegation);
    let scaling = scaling_of(data);
    let ailment = ailment_of(data);
    let active = reference_name(data, "ashOfWar"@, Field::Active);
    let range = range_of(data);
    if name is Err {
        Err(name->Err_0)
    } else if passive is Err {
        Err(passive->Err_0)
    } else if kind is Err {
        Err(kind->Err_0)
    } else if affinity is Err {
        Err(affinity->Err_0)
    } else if power is Err {
        Err(power->Err_0)
    } else if negation is Err {
        Err(negation->Err_0)
    } else if scaling is Err {
        Err(scaling->Err_0)
    } else if ailment is Err {
        Err(ailment->Err_0)
    } else if active is Err {
        Err(active->Err_0)
    } else if range is Err {
        Err(range->Err_0)
    } else {
        Ok(
            WeaponView {
                name: name->Ok_0,
                passive: passive->Ok_0,
                kind: kind->Ok_0,
                attack_affinity: affinity->Ok_0,
                range: range->Ok_0,
                attack_power: power->Ok_0,
                guarded_negation: negation->Ok_0,
                scaling: scaling->Ok_0,
                status_ailment: ailment->Ok_0,
                active: active->Ok_0,
            },
        )
    }
}

fn rank_from_letter(s: &str) -> (r: Option<Rank>)
    ensures
        r == rank_named(s@),
{
    if same_text(s, "S") {
        Some(Rank::S)
    } else if same_text(s, "A") {
        Some(Rank::A)
    } else if same_text(s, "B") {
        Some(Rank::B)
    } else if same_text(s, "C") {
        Some(Rank::C)
    } else if same_text(s, "D") {
        Some(Rank::D)
    } else if same_text(s, "E") {
        Some(Rank::E)
    } else {
        None
    }
}

fn attribute_from_name(s: &str) -> (r: Option<usize>)
    ensures
        match r {
            Some(i) => attribute_named(s@) == Some(i as int),
            None => attribute_named(s@) is None,
        },
{
    if same_text(s, "Strength") {
        Some(0)
    } else if same_text(s, "Dexterity") {
        Some(1)
    } else if same_text(s, "Intelligence") {
        Some(2)
    } else if same_text(s, "Faith") {
        Some(3)
    } else if same_text(s, "Arcane") {
        Some(4)
    } else {
        None
    }
}

fn ailment_from_name(s: &str) -> (r: Option<StatusAilment>)
    ensures
        r == ailment_named(s@),
{
    if same_text(s, "Poison") {
        Some(StatusAilment::Poison)
    } else if same_text(s, "Scarlet Rot") {
        Some(StatusAilment::ScarletRot)
    } else if same_text(s, "Blood Loss") {
        Some(StatusAilment::BloodLoss)
    } else if same_text(s, "Frostbite") {
        Some(StatusAilment::Frostbite)
    } else if same_text(s, "Sleep") {
        Some(StatusAilment::Sleep)
    } else if same_text(s, "Madness") {
        Some(StatusAilment::Madness)
    } else if same_text(s, "Death Blight") {
        Some(StatusAilment::DeathBlight)
    } else {
        None
    }
}

fn small_value(v: &Json) -> (r: Option<u8>)
    ensures
        r == small_number(*v),
{
    match v {
        Json::Number(Some(n)) => if *n <= 255 {
            Some(*n as u8)
        } else {
            None
        },
        _ => None,
    }
}

fn required_string(data: &Json, key: &str, f: Field) -> (r: Result<String, FieldError>)
    ensures
        match r {
            Ok(s) => required_text(*data, key@, f) == Ok::<Seq<char>, FieldError>(s@),
            Err(e) => required_text(*data, key@, f) == Err::<Seq<char>, FieldError>(e),
        },
{
    match data.get(key).as_str() {
        Some(s) => Ok(String::from_str(s)),
        None => Err(FieldError::NotAString(f)),
    }
}

/// The name of the reference node `key` of `data`; absent where the node is null.
fn get_node_name(data: &Json, key: &str, f: Field) -> (r: Result<Option<String>, FieldError>)
    ensures
        match r {
            Ok(s) => reference_name(*data, key@, f) == Ok::<Option<Seq<char>>, FieldError>(
                opt_text(s),
            ),
            Err(e) => reference_name(*data, key@, f) == Err::<Option<Seq<char>>, FieldError>(e),
        },
{
    let node = data.get(key);
    if node.is_null() {
        Ok(None)
    } else {
        match node.get("name").as_str() {
            Some(s) => Ok(Some(String::from_str(s))),
            None => Err(FieldError::NotAString(f)),
        }
    }
}

fn get_required_node_name(data: &Json, key: &str, f: Field) -> (r: Result<String, FieldError>)
    ensures
        match r {
            Ok(s) => required_reference(*data, key@, f) == Ok::<Seq<char>, FieldError>(s@),
            Err(e) => required_reference(*data, key@, f) == Err::<Seq<char>, FieldError>(e),
        },
{
    match data.get(key).get("name").as_str() {
        Some(s) => Ok(String::from_str(s)),
        None => Err(FieldError::NotAString(f)),
    }
}

/// The six slots of the element list `list`.
fn get_element_val(list: &Json, f: Field) -> (r: Result<[ElementValue; 6], FieldError>)
    ensures
        match r {
            Ok(a) => element_profile(*list, f) == Ok::<Seq<u8>, FieldError>(a@),
            Err(e) => element_profile(*list, f) == Err::<Seq<u8>, FieldError>(e),
        },
{
    let mut elements: [ElementValue; 6] = [0, 0, 0, 0, 0, 0];
    let mut i: usize = 0;
    while i < 6
        invariant
            i <= 6,
            forall|k: int| 0 <= k < i ==> #[trigger] element_slot(*list, k) == Some(elements@[k]),
        decreases 6 - i,
    {
        let v = list.at(i).get("value");
        if !v.is_null() {
            match small_value(v) {
                Some(n) => {
                    elements[i] = n;
                },
                None => {
                    assert(element_slot(*list, i as int) is None);
                    return Err(FieldError::BadNumber(f));
                },
            }
        } else {
            elements[i] = 0;
        }
        i = i + 1;
    }
    assert(element_profile(*list, f) == Ok::<Seq<u8>, FieldError>(elements@)) by {
        assert(Seq::new(6, |k: int| element_slot(*list, k)->0) =~= elements@);
    }
    Ok(elements)
}

fn get_range(data: &Json) -> (r: Result<Option<u64>, FieldError>)
    ensures
        r == range_of(*data),
{
    match data.get("range") {
        Json::Null => Ok(None),
        Json::Number(Some(n)) => Ok(Some(*n)),
        _ => Err(FieldError::BadNumber(Field::Range)),
    }
}

/// The status ailment of `data`, where its value is not null.
fn get_ailment(data: &Json) -> (r: Result<Option<(StatusAilment, u8)>, FieldError>)
    ensures
        r == ailment_of(*data),
{
    let node = data.get("statusAilment");
    let v = node.get("value");
    if v.is_null() {
        return Ok(None);
    }
    match small_value(v) {
        None => Err(FieldError::BadNumber(Field::StatusAilment)),
        Some(n) => match node.get("statusAilmentType").get("name").as_str() {
            Some(s) => match ailment_from_name(s) {
                Some(k) => Ok(Some((k, n))),
                None => Err(FieldError::UnknownAilment),
            },
            None => Err(FieldError::UnknownAilment),
        },
    }
}

/// The scaling slots of `data`.
fn parse_scalings(data: &Json) -> (r: Result<[(Attribute, Option<Rank>); 5], FieldError>)
    ensures
        match r {
            Ok(a) => scaling_of(*data) == Ok::<Seq<Option<Rank>>, FieldError>(
                Seq::new(5, |i: int| a@[i].1),
            ) && forall|i: int| 0 <= i < 5 ==> #[trigger] a@[i].0 == attribute_at(i),
            Err(e) => scaling_of(*data) == Err::<Seq<Option<Rank>>, FieldError>(e),
        },
{
    let mut slots: [(Attribute, Option<Rank>); 5] = [
        (Attribute::Strength, None),
        (Attribute::Dexterity, None),
        (Attribute::Intelligence, None),
        (Attribute::Faith, None),
        (Attribute::Arcane, None),
    ];
    assert(Seq::new(5, |i: int| slots@[i].1) =~= no_scaling());
    let list = data.get("attributeScaling");
    let items = match list {
        Json::Null => {
            return Ok(slots);
        },
        Json::Array(items) => items,
        _ => {
            return Err(FieldError::NotAList(Field::Scaling));
        },
    };
    let mut i: usize = 0;
    while i < items.len()
        invariant
            i <= items@.len(),
            scaling_of(*data) == scaling_entries(items@),
            scaling_entries(items@.subrange(0, i as int)) == Ok::<Seq<Option<Rank>>, FieldError>(
                Seq::new(5, |k: int| slots@[k].1),
            ),
            forall|k: int| 0 <= k < 5 ==> #[trigger] slots@[k].0 == attribute_at(k),
        decreases items@.len() - i,
    {
        let entry = &items[i];
        assert(items@.subrange(0, i + 1).drop_last() =~= items@.subrange(0, i as int));
        let rank = match entry.get("value").as_str() {
            Some(s) => rank_from_letter(s),
            None => None,
        };
        let slot = match entry.get("attribute").get("name").as_str() {
            Some(s) => attribute_from_name(s),
            None => None,
        };
        let ghost before = Seq::new(5, |k: int| slots@[k].1);
        match rank {
            None => {
                proof {
                    lemma_scaling_error_stays(items@, i as int + 1, FieldError::UnknownRank);
                }
                return Err(FieldError::UnknownRank);
            },
            Some(rk) => match slot {
                None => {
                    proof {
                        lemma_scaling_error_stays(items@, i as int + 1, FieldError::UnknownAttribute);
                    }
                    return Err(FieldError::UnknownAttribute);
                },
                Some(k) => {
                    let attribute = slots[k].0;
                    slots[k] = (attribute, Some(rk));
                    assert(Seq::new(5, |m: int| slots@[m].1) =~= before.update(k as int, Some(rk)));
                },
            },
        }
        i = i + 1;
    }
    assert(items@.subrange(0, i as int) =~= items@);
    Ok(slots)
}

/// Once a prefix of the scaling entries fails, every longer prefix fails the
/// same way.
proof fn lemma_scaling_error_stays(items: Seq<Json>, n: int, e: FieldError)
    requires
        0 < n <= items.len(),
        scaling_entries(items.subrange(0, n)) == Err::<Seq<Option<Rank>>, FieldError>(e),
    ensures
        scaling_entries(items) == Err::<Seq<Option<Rank>>, FieldError>(e),
    decreases items.len() - n,
{
    if n == items.len() {
        assert(items.subrange(0, n) =~= items);
    } else {
        assert(items.subrange(0, n + 1).drop_last() =~= items.subrange(0, n));
        lemma_scaling_error_stays(items, n + 1, e);
    }
}

impl Weapon {
    /// Builds the record that the catalogue entry `data` describes.
    pub fn new(data: &Json) -> (r: Result<Weapon, FieldError>)
        ensures
            match r {
                Ok(w) => parse_weapon(*data) == Ok::<WeaponView, FieldError>(w@) && w.wf(),
                Err(e) => parse_weapon(*data) == Err::<WeaponView, FieldError>(e),
            },
    {
        let name = match required_string(data, "name", Field::Name) {
            Ok(s) => s,
            Err(e) => {
                return Err(e);
            },
        };
        let passive = match get_node_name(data, "weaponPassive", Field::Passive) {
            Ok(s) => s,
            Err(e) => {
                return Err(e);
            },
        };
        let kind = match get_required_node_name(data, "weaponType", Field::Kind) {
            Ok(s) => s,
            Err(e) => {
                return Err(e);
            },
        };
        let attack_affinity = match get_node_name(data, "attackAffinity", Field::AttackAffinity) {
            Ok(s) => s,
            Err(e) => {
                return Err(e);
            },
        };
        let attack_power = match get_element_val(data.get("attackPower"), Field::AttackPower) {
            Ok(a) => a,
            Err(e) => {
                return Err(e);
            },
        };
        let guarded_negation = match get_element_val(
            data.get("guardedNegation"),
            Field::GuardedNegation,
        ) {
            Ok(a) => a,
            Err(e) => {
                return Err(e);
            },
        };
        let scaling = match parse_scalings(data) {
            Ok(a) => a,
            Err(e) => {
                return Err(e);
            },
        };
        let status_ailment = match get_ailment(data) {
            Ok(a) => a,
            Err(e) => {
                return Err(e);
            },
        };
        let active = match get_node_name(data, "ashOfWar", Field::Active) {
            Ok(s) => s,
            Err(e) => {
                return Err(e);
            },
        };
        let range = match get_range(data) {
            Ok(v) => v,
            Err(e) => {
                return Err(e);
            },
        };
        let w = Weapon {
            name,
            passive,
            kind,
            attack_affinity,
            range,
            attack_power,
            guarded_negation,
            scaling,
            status_ailment,
            active,
        };
        Ok(w)
    }
}

/// A null optional reference leaves the record's field absent: no default
/// text stands in for it.
pub proof fn lemma_null_reference_absent(data: Json)
    requires
        parse_weapon(data) is Ok,
    ensures
        data.field("weaponPassive"@) is Null ==> parse_weapon(data)->Ok_0.passive is None,
        data.field("attackAffinity"@) is Null ==> parse_weapon(data)->Ok_0.attack_affinity is None,
        data.field("ashOfWar"@) is Null ==> parse_weapon(data)->Ok_0.active is None,
{
}

} // verus!
