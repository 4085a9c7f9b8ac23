use pollen_wall::registry::PolledEvolutionInfo;
use pollen_wall::resolver::get_the_latest_image_according_to_numbering;

fn entry(name: &str) -> PolledEvolutionInfo {
    PolledEvolutionInfo::new(format!("hash-of-{}", name), name.to_string(), 1024)
}

#[test]
fn picks_the_maximum_frame_number() {
    let listing = vec![entry("p_0000.jpg"), entry("p_0003.jpg")];
    let i = get_the_latest_image_according_to_numbering(&listing);
    assert_eq!(i, Some(1));
    assert_eq!(listing[1].name, "p_0003.jpg");
}

#[test]
fn non_matching_entries_never_influence_the_result() {
    let listing = vec![
        entry("input"),
        entry("p_0002.jpg"),
        entry("metadata.json"),
        entry("p_0007.png"),
        entry("p_0005.jpg"),
        entry("no-digits.jpg"),
    ];
    let i = get_the_latest_image_according_to_numbering(&listing);
    assert_eq!(i, Some(4));
}

#[test]
fn no_candidate_when_nothing_matches() {
    let listing = vec![entry("input"), entry("model"), entry("p_0001.png")];
    assert_eq!(get_the_latest_image_according_to_numbering(&listing), None);
    let empty: Vec<PolledEvolutionInfo> = Vec::new();
    assert_eq!(get_the_latest_image_according_to_numbering(&empty), None);
}

#[test]
fn frame_zero_alone_is_a_candidate() {
    let listing = vec![entry("p_0000.jpg")];
    assert_eq!(get_the_latest_image_according_to_numbering(&listing), Some(0));
}

#[test]
fn zero_padding_does_not_distort_the_order() {
    let listing = vec![entry("p_9.jpg"), entry("p_010.jpg")];
    assert_eq!(get_the_latest_image_according_to_numbering(&listing), Some(1));
    let listing = vec![entry("p_0009.jpg"), entry("p_10.jpg")];
    assert_eq!(get_the_latest_image_according_to_numbering(&listing), Some(1));
}

#[test]
fn frame_numbers_beyond_machine_integers_compare_correctly() {
    let listing = vec![
        entry("a_99999999999999999999999999.jpg"),
        entry("a_100000000000000000000000000.jpg"),
        entry("a_99999999999999999999999998.jpg"),
    ];
    assert_eq!(get_the_latest_image_according_to_numbering(&listing), Some(1));
}

#[test]
fn earliest_entry_stays_on_equal_frame_numbers() {
    let listing = vec![entry("p_01.jpg"), entry("p_1.jpg")];
    assert_eq!(get_the_latest_image_according_to_numbering(&listing), Some(0));
}

#[test]
fn digits_before_the_run_belong_to_the_prefix() {
    // The frame number is the maximal digit run right before the extension.
    let listing = vec![entry("take2_0003.jpg"), entry("take2_0001.jpg")];
    assert_eq!(get_the_latest_image_according_to_numbering(&listing), Some(0));
}
