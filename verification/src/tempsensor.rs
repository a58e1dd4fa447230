//! Temperature sensors on the 1-Wire bus: which directory entries are
//! sensors, and where the reading sits in a sensor's data file.
use vstd::prelude::*;

use crate::text::{second_part, second_part_of, starts_with, starts_with_text, trim, trim_text};

verus! {

/// One entry of the bus's device directory (`/sys/bus/w1/devices`).
#[derive(Debug, PartialEq, Eq)]
pub struct SensorEntry {
    /// The full path of the entry.
    pub path: String,
    /// The entry's own name.
    pub name: String,
    /// Whether the entry is a directory.
    pub is_dir: bool,
}

/// Why no reading could be had.
#[derive(Debug, Clone, Copy, PartialEq, Eq)]
pub enum SensorError {
    /// No entry is a sensor (`get_sensor_ids`).
    NoSensors,
    /// No entry is a sensor (`get_sensor_id`).
    SensorNotFound,
    /// The data file holds no `t=` field.
    InvalidTemperatureData,
}

/// Whether an entry is a temperature sensor: a directory whose name begins
/// with `28`, the family code of the DS18B20.
pub open spec fn is_sensor(e: SensorEntry) -> bool {
    e.is_dir && starts_with(e.name@, "28"@)
}

/// The paths of the sensor entries among `es`, in order.
pub open spec fn sensor_paths(es: Seq<SensorEntry>) -> Seq<Seq<char>>
    decreases es.len(),
{
    if es.len() == 0 {
        Seq::empty()
    } else if is_sensor(es.last()) {
        sensor_paths(es.drop_last()).push(es.last().path@)
    } else {
        sensor_paths(es.drop_last())
    }
}

/// Whether an entry is a sensor.
fn entry_is_sensor(e: &SensorEntry) -> (r: bool)
    ensures
        r == is_sensor(*e),
{
    e.is_dir && starts_with_text(e.name.as_str(), "28")
}

/// The paths of all sensors among `entries`, in order; an error when there is none.
pub fn get_sensor_ids(entries: &Vec<SensorEntry>) -> (r: Result<Vec<String>, SensorError>)
    ensures
        sensor_paths(entries@).len() == 0 ==> r == Err::<Vec<String>, SensorError>(
            SensorError::NoSensors,
        ),
        sensor_paths(entries@).len() > 0 ==> (r matches Ok(v) && v@.map_values(|s: String| s@)
            == sensor_paths(entries@)),
{
    let mut ids: Vec<String> = Vec::new();
    let mut i: usize = 0;
    while i < entries.len()
        invariant
            i <= entries@.len(),
            ids@.map_values(|s: String| s@) == sensor_paths(entries@.take(i as int)),
        decreases entries@.len() - i,
    {
        proof {
            let t = entries@.take(i + 1);
            assert(t.drop_last() =~= entries@.take(i as int));
            assert(t.last() == entries@[i as int]);
        }
        if entry_is_sensor(&entries[i]) {
            ids.push(entries[i].path.clone());
        }
        proof {
            assert(ids@.map_values(|s: String| s@) =~= sensor_paths(entries@.take(i + 1)));
        }
        i = i + 1;
    }
    assert(entries@.take(entries@.len() as int) =~= entries@);
    if ids.len() == 0 {
        Err(SensorError::NoSensors)
    } else {
        Ok(ids)
    }
}

/// The index of the first sensor among `es`, if any.
pub open spec fn first_sensor(es: Seq<SensorEntry>, i: int) -> bool {
    0 <= i < es.len() && is_sensor(es[i]) && forall|j: int| 0 <= j < i ==> !is_sensor(#[trigger] es[j])
}

/// The path of the first sensor among `entries`; an error when there is none.
pub fn get_sensor_id(entries: &Vec<SensorEntry>) -> (r: Result<String, SensorError>)
    ensures
        (forall|j: int| 0 <= j < entries@.len() ==> !is_sensor(#[trigger] entries@[j])) ==> r
            == Err::<String, SensorError>(SensorError::SensorNotFound),
        forall|i: int| first_sensor(entries@, i) ==> (r matches Ok(p) && p@ == entries@[i].path@),
{
    let mut i: usize = 0;
    while i < entries.len()
        invariant
            i <= entries@.len(),
            forall|j: int| 0 <= j < i ==> !is_sensor(#[trigger] entries@[j]),
        decreases entries@.len() - i,
    {
        if entry_is_sensor(&entries[i]) {
            let r = entries[i].path.clone();
            assert forall|k: int| first_sensor(entries@, k) implies k == i by {
                if k < i {
                } else if k > i {
                    assert(!is_sensor(entries@[i as int]));
                }
            }
            return Ok(r);
        }
        i = i + 1;
    }
    Err(SensorError::SensorNotFound)
}

/// The text of the reading in a sensor's data file: what follows the first
/// `t=` (up to a next `t=`), without surrounding whitespace.
pub open spec fn temperature_text_spec(data: Seq<char>) -> Option<Seq<char>> {
    match second_part(data, "t="@) {
        Some(t) => Some(trim(t)),
        None => None,
    }
}

/// The text of the reading (in thousandths of a degree Celsius) in a
/// sensor's data file; an error when the file holds no `t=` field.
pub fn temperature_text(data: &str) -> (r: Result<String, SensorError>)
    ensures
        match temperature_text_spec(data@) {
            Some(t) => r matches Ok(x) && x@ == t,
            None => r == Err::<String, SensorError>(SensorError::InvalidTemperatureData),
        },
{
    proof {
        reveal_strlit("t=");
    }
    match second_part_of(data, "t=") {
        Some(part) => Ok(trim_text(part.as_str())),
        None => Err(SensorError::InvalidTemperatureData),
    }
}

} // verus!

verus! {

proof fn lemma_no_sensor_no_paths(es: Seq<SensorEntry>)
    requires
        forall|j: int| 0 <= j < es.len() ==> !is_sensor(#[trigger] es[j]),
    ensures
        sensor_paths(es).len() == 0,
    decreases es.len(),
{
    if es.len() > 0 {
        assert(!is_sensor(es[es.len() - 1]));
        assert forall|j: int| 0 <= j < es.drop_last().len() implies !is_sensor(
            #[trigger] es.drop_last()[j],
        ) by {
            assert(es.drop_last()[j] == es[j]);
        }
        lemma_no_sensor_no_paths(es.drop_last());
    }
}

/// The one sensor that `get_sensor_id` picks is the first of those that
/// `get_sensor_ids` lists.
pub proof fn law_first_id_heads_all_ids(es: Seq<SensorEntry>, i: int)
    requires
        first_sensor(es, i),
    ensures
        sensor_paths(es).len() > 0,
        sensor_paths(es)[0] == es[i].path@,
    decreases es.len(),
{
    let d = es.drop_last();
    if i == es.len() - 1 {
        assert forall|j: int| 0 <= j < d.len() implies !is_sensor(#[trigger] d[j]) by {
            assert(d[j] == es[j]);
        }
        lemma_no_sensor_no_paths(d);
    } else {
        assert(first_sensor(d, i)) by {
            assert forall|j: int| 0 <= j < i implies !is_sensor(#[trigger] d[j]) by {
                assert(d[j] == es[j]);
            }
        }
        law_first_id_heads_all_ids(d, i);
    }
}

} // verus!
