use cliser::tempsensor::{get_sensor_id, get_sensor_ids, temperature_text, SensorEntry, SensorError};

fn entry(name: &str, is_dir: bool) -> SensorEntry {
    SensorEntry { path: format!("/sys/bus/w1/devices/{}", name), name: name.to_string(), is_dir }
}

#[test]
fn sensors_are_directories_of_family_28() {
    let entries = vec![
        entry("w1_bus_master1", true),
        entry("28-0000072a1b3c", true),
        entry("28-file", false),
        entry("28-00000b11aa22", true),
    ];
    assert_eq!(
        get_sensor_ids(&entries),
        Ok(vec!["/sys/bus/w1/devices/28-0000072a1b3c".to_string(), "/sys/bus/w1/devices/28-00000b11aa22".to_string()])
    );
    assert_eq!(get_sensor_id(&entries), Ok("/sys/bus/w1/devices/28-0000072a1b3c".to_string()));
    let none = vec![entry("w1_bus_master1", true)];
    assert_eq!(get_sensor_ids(&none), Err(SensorError::NoSensors));
    assert_eq!(get_sensor_id(&none), Err(SensorError::SensorNotFound));
}

#[test]
fn reading_text() {
    let data = "72 01 4b 46 7f ff 0e 10 57 : crc=57 YES\n72 01 4b 46 7f ff 0e 10 57 t=23125\n";
    assert_eq!(temperature_text(data), Ok("23125".to_string()));
    assert_eq!(temperature_text("t=-1250 t=9"), Ok("-1250".to_string()));
    assert_eq!(temperature_text("a t=1 t=2"), Ok("1".to_string()));
    assert_eq!(temperature_text("t="), Ok("".to_string()));
    assert_eq!(temperature_text("crc=00 NO"), Err(SensorError::InvalidTemperatureData));
}
