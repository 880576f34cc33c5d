use syncplay::audio::device::{
    choose_config, choose_device, find_device, list_devices, listing_order, ConfigChoice,
    DeviceChoice, ListingKey, SupportedConfig,
};

fn strings(names: &[&str]) -> Vec<String> {
    names.iter().map(|n| n.to_string()).collect()
}

fn readable(names: &[&str]) -> Vec<Option<String>> {
    names.iter().map(|n| Some(n.to_string())).collect()
}

#[test]
fn default_comes_first_then_the_alphabet() {
    let devices = list_devices(
        strings(&["zoom", "BlackHole 2ch", "Built-in", "airpods"]),
        Some("zoom".to_string()),
    );
    let listed: Vec<(&str, bool)> =
        devices.iter().map(|d| (d.name.as_str(), d.is_default)).collect();
    assert_eq!(
        listed,
        vec![("zoom", true), ("airpods", false), ("BlackHole 2ch", false), ("Built-in", false)]
    );
}

#[test]
fn names_that_differ_in_case_keep_their_order() {
    let devices = list_devices(strings(&["b", "MIC", "mic", "Mic", "a"]), None);
    let listed: Vec<&str> = devices.iter().map(|d| d.name.as_str()).collect();
    assert_eq!(listed, vec!["a", "b", "MIC", "mic", "Mic"]);
    assert!(devices.iter().all(|d| !d.is_default));
}

#[test]
fn every_device_with_the_default_name_is_default() {
    let devices = list_devices(strings(&["x", "mic", "mic"]), Some("mic".to_string()));
    let listed: Vec<bool> = devices.iter().map(|d| d.is_default).collect();
    assert_eq!(listed, vec![true, true, false]);
    assert!(list_devices(vec![], Some("mic".to_string())).is_empty());
}

#[test]
fn other_alphabets_are_lowered_too() {
    let devices = list_devices(strings(&["\u{e9}cran", "\u{c9}CLAIR", "Zebra"]), None);
    let listed: Vec<&str> = devices.iter().map(|d| d.name.as_str()).collect();
    assert_eq!(listed, vec!["Zebra", "\u{c9}CLAIR", "\u{e9}cran"]);
}

#[test]
fn listing_order_gives_the_places() {
    let key = |is_default: bool, name: &str| ListingKey { is_default, lower_name: name.to_string() };
    let keys =
        vec![key(false, "b"), key(false, "ab"), key(true, "z"), key(false, "b"), key(false, "a")];
    assert_eq!(listing_order(&keys), vec![2, 4, 1, 0, 3]);
    assert_eq!(listing_order(&[]), Vec::<usize>::new());
}

#[test]
fn device_is_found_by_a_part_of_its_name() {
    let mut names = readable(&["Built-in", "BlackHole 2ch", "BlackHole 16ch"]);
    names[0] = None;
    assert_eq!(find_device(&names, "BlackHole"), Some(1));
    assert_eq!(find_device(&names, "16ch"), Some(2));
    assert_eq!(find_device(&names, "blackhole"), None);
    assert_eq!(find_device(&names, "Built-in"), None);
    assert_eq!(find_device(&names, ""), Some(1));
    assert_eq!(find_device(&[], ""), None);
}

#[test]
fn unmatched_name_means_the_default_device() {
    let names = readable(&["Built-in", "BlackHole 2ch"]);
    assert_eq!(choose_device(&names, "Hole"), DeviceChoice::Listed(1));
    assert_eq!(choose_device(&names, "Sonos"), DeviceChoice::Default);
    assert_eq!(choose_device(&names, ""), DeviceChoice::Default);
}

fn config(channels: u16, min_sample_rate: u32, max_sample_rate: u32) -> SupportedConfig {
    SupportedConfig { channels, min_sample_rate, max_sample_rate }
}

#[test]
fn stereo_at_our_rate_is_preferred() {
    let supported = [config(1, 8_000, 96_000), config(2, 44_100, 44_100), config(2, 48_000, 48_000)];
    assert_eq!(choose_config(&supported), ConfigChoice { channels: 2, sample_rate: 48_000 });
}

#[test]
fn otherwise_the_first_at_our_rate() {
    let supported = [config(2, 44_100, 44_100), config(1, 48_000, 96_000), config(8, 8_000, 48_000)];
    assert_eq!(choose_config(&supported), ConfigChoice { channels: 1, sample_rate: 48_000 });
    let many = [config(8, 8_000, 48_000), config(1, 48_000, 96_000)];
    assert_eq!(choose_config(&many), ConfigChoice { channels: 2, sample_rate: 48_000 });
}

#[test]
fn otherwise_the_first_at_its_highest_rate() {
    let supported = [config(6, 8_000, 44_100), config(2, 96_000, 192_000)];
    assert_eq!(choose_config(&supported), ConfigChoice { channels: 6, sample_rate: 44_100 });
}
