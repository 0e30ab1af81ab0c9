//! The registry of typed ST 0601 tags: wire numbers, field names and units.

use vstd::prelude::*;

verus! {

/// Metadata for one ST 0601 tag decoded into a typed field: its wire number,
/// the field's base name, and its engineering unit (`None` for unit-less tags).
#[derive(Clone, Copy, Debug, PartialEq, Eq)]
pub struct TagInfo {
    /// ST 0601 tag number as it appears on the wire.
    pub number: u8,
    /// Field base name, e.g. `"sensor_latitude"`.
    pub name: &'static str,
    /// Engineering unit, or `None` for unit-less tags such as the LS version.
    pub unit: Option<&'static str>,
}

/// Number of typed tags: Tag 2, the twenty scaled tags, and Tag 65.
pub open spec fn tag_count() -> nat {
    22
}

/// Wire number of registry entry `i`, in ascending order.
pub open spec fn table_number(i: int) -> u8 {
    seq![2u8, 5, 6, 7, 8, 13, 14, 15, 16, 17, 18, 19, 20, 21, 22, 23, 24, 25, 40, 41, 42, 65][i]
}

/// Field base name of registry entry `i`.
pub open spec fn table_name(i: int) -> Seq<char> {
    if i == 0 {
        "timestamp"@
    } else if i == 1 {
        "platform_heading"@
    } else if i == 2 {
        "platform_pitch"@
    } else if i == 3 {
        "platform_roll"@
    } else if i == 4 {
        "platform_true_airspeed"@
    } else if i == 5 {
        "sensor_latitude"@
    } else if i == 6 {
        "sensor_longitude"@
    } else if i == 7 {
        "sensor_true_altitude"@
    } else if i == 8 {
        "sensor_horizontal_fov"@
    } else if i == 9 {
        "sensor_vertical_fov"@
    } else if i == 10 {
        "sensor_relative_azimuth"@
    } else if i == 11 {
        "sensor_relative_elevation"@
    } else if i == 12 {
        "sensor_relative_roll"@
    } else if i == 13 {
        "slant_range"@
    } else if i == 14 {
        "target_width"@
    } else if i == 15 {
        "frame_center_latitude"@
    } else if i == 16 {
        "frame_center_longitude"@
    } else if i == 17 {
        "frame_center_elevation"@
    } else if i == 18 {
        "target_location_latitude"@
    } else if i == 19 {
        "target_location_longitude"@
    } else if i == 20 {
        "target_location_elevation"@
    } else {
        "version"@
    }
}

/// Unit of registry entry `i`.
pub open spec fn table_unit(i: int) -> Option<Seq<char>> {
    if i == 0 {
        Some("microseconds"@)
    } else if i == 21 {
        None
    } else if i == 4 {
        Some("mps"@)
    } else if i == 7 || i == 13 || i == 14 || i == 17 || i == 20 {
        Some("meters"@)
    } else {
        Some("degrees"@)
    }
}

pub open spec fn unit_view(u: Option<&'static str>) -> Option<Seq<char>> {
    match u {
        Some(s) => Some(s@),
        None => None,
    }
}

/// Entry `k` of `t` is registry entry `k`.
pub open spec fn is_table_entry(t: TagInfo, k: int) -> bool {
    t.number == table_number(k) && t.name@ == table_name(k) && unit_view(t.unit) == table_unit(k)
}

/// The first registry entry at or after `i` whose name is `name`.
pub open spec fn find_name(name: Seq<char>, i: int) -> Option<int>
    decreases 22 - i,
{
    if i >= 22 || i < 0 {
        None
    } else if table_name(i) == name {
        Some(i)
    } else {
        find_name(name, i + 1)
    }
}

/// The first registry entry at or after `i` whose number is `number`.
pub open spec fn find_number(number: u8, i: int) -> Option<int>
    decreases 22 - i,
{
    if i >= 22 || i < 0 {
        None
    } else if table_number(i) == number {
        Some(i)
    } else {
        find_number(number, i + 1)
    }
}

/// Every ST 0601 tag this crate decodes into a typed field, in ascending tag
/// order: Tag 2 (timestamp), the scaled tags, and Tag 65 (version).
pub fn tags() -> (v: Vec<TagInfo>)
    ensures
        v@.len() == tag_count(),
        forall|k: int| 0 <= k < 22 ==> is_table_entry(#[trigger] v@[k], k),
{
    let mut v: Vec<TagInfo> = Vec::new();
    v.push(TagInfo { number: 2, name: "timestamp", unit: Some("microseconds") });
    v.push(TagInfo { number: 5, name: "platform_heading", unit: Some("degrees") });
    v.push(TagInfo { number: 6, name: "platform_pitch", unit: Some("degrees") });
    v.push(TagInfo { number: 7, name: "platform_roll", unit: Some("degrees") });
    v.push(TagInfo { number: 8, name: "platform_true_airspeed", unit: Some("mps") });
    v.push(TagInfo { number: 13, name: "sensor_latitude", unit: Some("degrees") });
    v.push(TagInfo { number: 14, name: "sensor_longitude", unit: Some("degrees") });
    v.push(TagInfo { number: 15, name: "sensor_true_altitude", unit: Some("meters") });
    v.push(TagInfo { number: 16, name: "sensor_horizontal_fov", unit: Some("degrees") });
    v.push(TagInfo { number: 17, name: "sensor_vertical_fov", unit: Some("degrees") });
    v.push(TagInfo { number: 18, name: "sensor_relative_azimuth", unit: Some("degrees") });
    v.push(TagInfo { number: 19, name: "sensor_relative_elevation", unit: Some("degrees") });
    v.push(TagInfo { number: 20, name: "sensor_relative_roll", unit: Some("degrees") });
    v.push(TagInfo { number: 21, name: "slant_range", unit: Some("meters") });
    v.push(TagInfo { number: 22, name: "target_width", unit: Some("meters") });
    v.push(TagInfo { number: 23, name: "frame_center_latitude", unit: Some("degrees") });
    v.push(TagInfo { number: 24, name: "frame_center_longitude", unit: Some("degrees") });
    v.push(TagInfo { number: 25, name: "frame_center_elevation", unit: Some("meters") });
    v.push(TagInfo { number: 40, name: "target_location_latitude", unit: Some("degrees") });
    v.push(TagInfo { number: 41, name: "target_location_longitude", unit: Some("degrees") });
    v.push(TagInfo { number: 42, name: "target_location_elevation", unit: Some("meters") });
    v.push(TagInfo { number: 65, name: "version", unit: None });
    v
}

/// Wire tag number for a field base name (e.g. `"sensor_latitude"`), or `None`
/// if no typed tag carries that name.
pub fn tag_number(name: &str) -> (r: Option<u8>)
    ensures
        r == match find_name(name@, 0) {
            Some(i) => Some(table_number(i)),
            None => None::<u8>,
        },
{
    let table = tags();
    let mut i: usize = 0;
    while i < table.len()
        invariant
            table@.len() == 22,
            forall|k: int| 0 <= k < 22 ==> is_table_entry(#[trigger] table@[k], k),
            0 <= i <= 22,
            find_name(name@, 0) == find_name(name@, i as int),
        decreases 22 - i,
    {
        let t = table[i];
        assert(is_table_entry(table@[i as int], i as int));
        if crate::text::str_eq(name, t.name) {
            return Some(t.number);
        }
        i = i + 1;
    }
    None
}

/// Field base name for a wire tag number, or `None` if the tag is not one
/// this crate types.
pub fn tag_name(number: u8) -> (r: Option<&'static str>)
    ensures
        match find_number(number, 0) {
            Some(i) => r matches Some(s) && s@ == table_name(i),
            None => r is None,
        },
{
    let table = tags();
    let mut i: usize = 0;
    while i < table.len()
        invariant
            table@.len() == 22,
            forall|k: int| 0 <= k < 22 ==> is_table_entry(#[trigger] table@[k], k),
            0 <= i <= 22,
            find_number(number, 0) == find_number(number, i as int),
        decreases 22 - i,
    {
        let t = table[i];
        assert(is_table_entry(table@[i as int], i as int));
        if t.number == number {
            return Some(t.name);
        }
        i = i + 1;
    }
    None
}

/// A fingerprint that tells the registry's names apart: length, first
/// character, and the character at index 16 (when there is one).
spec fn name_key(s: Seq<char>) -> (nat, char, char) {
    (s.len(), s[0], if s.len() > 16 { s[16] } else { ' ' })
}

pub(crate) proof fn lemma_names_distinct(j: int, k: int)
    requires
        0 <= j < 22,
        0 <= k < 22,
        j != k,
    ensures
        table_name(j) != table_name(k),
{
    reveal_strlit("timestamp");
    reveal_strlit("platform_heading");
    reveal_strlit("platform_pitch");
    reveal_strlit("platform_roll");
    reveal_strlit("platform_true_airspeed");
    reveal_strlit("sensor_latitude");
    reveal_strlit("sensor_longitude");
    reveal_strlit("sensor_true_altitude");
    reveal_strlit("sensor_horizontal_fov");
    reveal_strlit("sensor_vertical_fov");
    reveal_strlit("sensor_relative_azimuth");
    reveal_strlit("sensor_relative_elevation");
    reveal_strlit("sensor_relative_roll");
    reveal_strlit("slant_range");
    reveal_strlit("target_width");
    reveal_strlit("frame_center_latitude");
    reveal_strlit("frame_center_longitude");
    reveal_strlit("frame_center_elevation");
    reveal_strlit("target_location_latitude");
    reveal_strlit("target_location_longitude");
    reveal_strlit("target_location_elevation");
    reveal_strlit("version");
    assert(name_key(table_name(0)) == (9nat, 't', ' '));
    assert(name_key(table_name(1)) == (16nat, 'p', ' '));
    assert(name_key(table_name(2)) == (14nat, 'p', ' '));
    assert(name_key(table_name(3)) == (13nat, 'p', ' '));
    assert(name_key(table_name(4)) == (22nat, 'p', 'r'));
    assert(name_key(table_name(5)) == (15nat, 's', ' '));
    assert(name_key(table_name(6)) == (16nat, 's', ' '));
    assert(name_key(table_name(7)) == (20nat, 's', 't'));
    assert(name_key(table_name(8)) == (21nat, 's', 'l'));
    assert(name_key(table_name(9)) == (19nat, 's', 'f'));
    assert(name_key(table_name(10)) == (23nat, 's', 'a'));
    assert(name_key(table_name(11)) == (25nat, 's', 'e'));
    assert(name_key(table_name(12)) == (20nat, 's', 'r'));
    assert(name_key(table_name(13)) == (11nat, 's', ' '));
    assert(name_key(table_name(14)) == (12nat, 't', ' '));
    assert(name_key(table_name(15)) == (21nat, 'f', 'i'));
    assert(name_key(table_name(16)) == (22nat, 'f', 'g'));
    assert(name_key(table_name(17)) == (22nat, 'f', 'v'));
    assert(name_key(table_name(18)) == (24nat, 't', 'l'));
    assert(name_key(table_name(19)) == (25nat, 't', 'l'));
    assert(name_key(table_name(20)) == (25nat, 't', 'e'));
    assert(name_key(table_name(21)) == (7nat, 'v', ' '));
}

/// The registry lists its tags in strictly ascending wire order and never
/// lists Tag 1 (the checksum is framing, not a field).
pub proof fn lemma_registry_ascending()
    ensures
        forall|i: int, j: int| 0 <= i < j < 22 ==> table_number(i) < table_number(j),
        forall|i: int| 0 <= i < 22 ==> table_number(i) != 1,
{
}

proof fn lemma_find_name_from(k: int, i: int)
    requires
        0 <= i <= k < 22,
    ensures
        find_name(table_name(k), i) == Some(k),
    decreases k - i,
{
    if i < k {
        lemma_names_distinct(i, k);
        lemma_find_name_from(k, i + 1);
    }
}

proof fn lemma_find_number_from(k: int, i: int)
    requires
        0 <= i <= k < 22,
    ensures
        find_number(table_number(k), i) == Some(k),
    decreases k - i,
{
    if i < k {
        lemma_registry_ascending();
        lemma_find_number_from(k, i + 1);
    }
}

/// Name and number lookups are inverse on the registry: each entry's name
/// finds its number and its number finds its name.
pub proof fn lemma_lookups_inverse(k: int)
    requires
        0 <= k < 22,
    ensures
        find_name(table_name(k), 0) == Some(k),
        find_number(table_number(k), 0) == Some(k),
{
    lemma_find_name_from(k, 0);
    lemma_find_number_from(k, 0);
}

proof fn lemma_find_name_range(name: Seq<char>, i: int)
    requires
        0 <= i <= 22,
    ensures
        find_name(name, i) matches Some(k) ==> i <= k < 22 && table_name(k) == name,
        find_name(name, i) is None ==> forall|k: int| i <= k < 22 ==> table_name(k) != name,
    decreases 22 - i,
{
    if i < 22 {
        lemma_find_name_range(name, i + 1);
    }
}

proof fn lemma_find_number_range(number: u8, i: int)
    requires
        0 <= i <= 22,
    ensures
        find_number(number, i) matches Some(k) ==> i <= k < 22 && table_number(k) == number,
        find_number(number, i) is None ==> forall|k: int| i <= k < 22 ==> table_number(k) != number,
    decreases 22 - i,
{
    if i < 22 {
        lemma_find_number_range(number, i + 1);
    }
}

/// What the lookups find over the whole registry: a name lookup finds the
/// entry with that name, or finds nothing exactly when no entry has it;
/// a number lookup likewise. Names and numbers are each unique, so
/// `tag_number(name) == Some(n)` holds exactly when some entry is named
/// `name` and numbered `n`, and `tag_name(n)` likewise.
pub proof fn lemma_lookups_exact(name: Seq<char>, number: u8)
    ensures
        find_name(name, 0) matches Some(k) ==> 0 <= k < 22 && table_name(k) == name,
        find_name(name, 0) is None <==> forall|k: int| 0 <= k < 22 ==> table_name(k) != name,
        find_number(number, 0) matches Some(k) ==> 0 <= k < 22 && table_number(k) == number,
        find_number(number, 0) is None <==> forall|k: int| 0 <= k < 22 ==> table_number(k) != number,
        forall|j: int, k: int| 0 <= j < 22 && 0 <= k < 22 && j != k ==> table_name(j) != table_name(k)
            && table_number(j) != table_number(k),
{
    lemma_find_name_range(name, 0);
    lemma_find_number_range(number, 0);
    lemma_registry_ascending();
    assert forall|j: int, k: int| 0 <= j < 22 && 0 <= k < 22 && j != k implies table_name(j) != table_name(k)
        && table_number(j) != table_number(k) by {
        lemma_names_distinct(j, k);
        if j > k {
            assert(table_number(k) < table_number(j));
        }
    }
}

} // verus!
