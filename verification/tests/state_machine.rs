use pollen_wall::message::{screen_message, ScreenedMessage};
use pollen_wall::registry::{
    Model, PollenInfo, PollenStatus, PolledEvolutionInfo, Registry, Topic, UpsertOutcome,
};
use pollen_wall::resolver::get_the_latest_image_according_to_numbering;

fn listing(names: &[&str]) -> Vec<PolledEvolutionInfo> {
    names
        .iter()
        .map(|n| PolledEvolutionInfo::new(format!("hash-of-{}", n), n.to_string(), 1024))
        .collect()
}

/// Drives one event through the same stages the event loop uses: registry
/// update, artifact resolution, persist decision, persist acknowledgement.
/// Returns the name of the artifact persisted this round, if any.
fn round(
    registry: &mut Registry,
    id: &str,
    topic: Topic,
    hash: &str,
    names: &[&str],
) -> Option<String> {
    let outcome = registry.upsert(
        id.to_string(),
        topic,
        hash.to_string(),
        None,
        None,
    );
    match outcome {
        UpsertOutcome::Accepted => {}
        _ => return None,
    }
    let entries = listing(names);
    let picked = get_the_latest_image_according_to_numbering(&entries)?;
    let key = id.to_string();
    if registry.should_persist(&key) {
        let artifact = entries[picked].clone();
        let name = artifact.name.clone();
        registry.record_persisted(&key, artifact);
        Some(name)
    } else {
        None
    }
}

#[test]
fn scenario_processing_twice_then_done_applies_once() {
    let mut registry = Registry::new(false);
    let names = ["p_0000.jpg", "p_0003.jpg"];
    let mut persisted: Vec<String> = Vec::new();

    persisted.extend(round(&mut registry, "J1", Topic::ProcessingPollen, "h0", &names));
    persisted.extend(round(&mut registry, "J1", Topic::ProcessingPollen, "h3", &names));
    persisted.extend(round(&mut registry, "J1", Topic::DonePollen, "h3", &names));

    assert_eq!(persisted, vec!["p_0003.jpg".to_string()]);
    let key = "J1".to_string();
    let job = registry.get_pollen(&key).expect("J1 is tracked");
    assert_eq!(job.status, PollenStatus::OnceSetAsWallpaper);
    let last = job.last_polled_evolution.as_ref().expect("an artifact was recorded");
    assert_eq!(last.name, "p_0003.jpg");
    assert_eq!(job.hash_of_current_iteration, "h3");
}

#[test]
fn duplicate_done_events_after_apply_change_nothing() {
    let mut registry = Registry::new(false);
    let names = ["p_0001.jpg"];
    let first = round(&mut registry, "J1", Topic::DonePollen, "h1", &names);
    assert_eq!(first, Some("p_0001.jpg".to_string()));

    let key = "J1".to_string();
    for _ in 0..3 {
        let outcome = registry.upsert(
            "J1".to_string(),
            Topic::DonePollen,
            "h2".to_string(),
            Some(Model::WikiArt),
            Some("late metadata".to_string()),
        );
        assert_eq!(outcome, UpsertOutcome::IgnoredDuplicateDone);
        let job = registry.get_pollen(&key).expect("J1 stays tracked");
        assert_eq!(job.status, PollenStatus::OnceSetAsWallpaper);
        // The duplicate is dropped whole: nothing was refreshed.
        assert_eq!(job.hash_of_current_iteration, "h1");
        assert_eq!(job.model_type, None);
        assert_eq!(job.text_input, None);
        assert!(!registry.should_persist(&key));
    }
    assert_eq!(registry.len(), 1);
}

#[test]
fn scenario_keepalive_between_two_events_is_invisible() {
    let mut registry = Registry::new(false);
    let names = ["p_0001.jpg"];
    round(&mut registry, "J1", Topic::ProcessingPollen, "h1", &names);
    let len_before = registry.len();

    // The keep-alive is dropped at the message source, before classification,
    // before any lookup and before the registry could be touched.
    let raw = multibase::Base::Base64Pad.encode(b"HEARTBEAT");
    match screen_message(raw) {
        ScreenedMessage::KeepAlive => {}
        other => panic!("expected keep-alive, got {:?}", other),
    }

    assert_eq!(registry.len(), len_before);
    let key = "J1".to_string();
    let job = registry.get_pollen(&key).expect("J1 is tracked");
    assert_eq!(job.status, PollenStatus::Processing);
    assert_eq!(job.hash_of_current_iteration, "h1");

    let after = round(&mut registry, "J1", Topic::DonePollen, "h2", &names);
    assert_eq!(after, Some("p_0001.jpg".to_string()));
}

#[test]
fn scenario_attach_mode_ignores_other_pollens_until_applied() {
    let mut registry = Registry::new(true);
    let names = ["p_0001.jpg"];

    // J1 arrives first and takes the attach slot.
    let r1 = round(&mut registry, "J1", Topic::ProcessingPollen, "h1", &names);
    assert_eq!(r1, Some("p_0001.jpg".to_string()));
    let j1 = "J1".to_string();
    let j2 = "J2".to_string();
    assert!(registry.is_attached_to(&j1));

    // Every J2 event is a no-op while J1 is attached: not tracked, no persist.
    for topic in [Topic::ProcessingPollen, Topic::DonePollen] {
        let outcome = registry.upsert(
            "J2".to_string(),
            topic,
            "h9".to_string(),
            None,
            None,
        );
        assert_eq!(outcome, UpsertOutcome::IgnoredNotAttached);
        assert!(registry.get_pollen(&j2).is_none());
        assert_eq!(registry.len(), 1);
    }

    // J1 completes: applied, and the slot is freed.
    let done = round(&mut registry, "J1", Topic::DonePollen, "h2", &names);
    assert_eq!(done, Some("p_0001.jpg".to_string()));
    assert_eq!(
        registry.get_pollen(&j1).unwrap().status,
        PollenStatus::OnceSetAsWallpaper
    );
    assert!(!registry.has_attached());

    // Now J2 can attach.
    let r2 = round(&mut registry, "J2", Topic::ProcessingPollen, "h9", &names);
    assert_eq!(r2, Some("p_0001.jpg".to_string()));
    assert!(registry.is_attached_to(&j2));
}

#[test]
fn attach_mode_persists_processing_iterations_of_the_attached_pollen() {
    let mut registry = Registry::new(true);
    let r1 = round(
        &mut registry,
        "J1",
        Topic::ProcessingPollen,
        "h1",
        &["p_0001.jpg"],
    );
    assert_eq!(r1, Some("p_0001.jpg".to_string()));
    let r2 = round(
        &mut registry,
        "J1",
        Topic::ProcessingPollen,
        "h2",
        &["p_0001.jpg", "p_0002.jpg"],
    );
    assert_eq!(r2, Some("p_0002.jpg".to_string()));
    let key = "J1".to_string();
    assert_eq!(registry.get_pollen(&key).unwrap().status, PollenStatus::Processing);
}

#[test]
fn attach_mode_reprimes_an_applied_pollen_on_processing() {
    let mut registry = Registry::new(true);
    let names = ["p_0001.jpg"];
    round(&mut registry, "J1", Topic::DonePollen, "h1", &names);
    let key = "J1".to_string();
    assert_eq!(
        registry.get_pollen(&key).unwrap().status,
        PollenStatus::OnceSetAsWallpaper
    );
    assert!(!registry.has_attached());

    // A later processing signal re-attaches and re-primes the same pollen.
    let r = round(&mut registry, "J1", Topic::ProcessingPollen, "h2", &names);
    assert_eq!(r, Some("p_0001.jpg".to_string()));
    assert_eq!(registry.get_pollen(&key).unwrap().status, PollenStatus::Processing);
    assert!(registry.is_attached_to(&key));
}

#[test]
fn processing_after_apply_outside_attach_mode_only_refreshes() {
    let mut registry = Registry::new(false);
    let names = ["p_0001.jpg"];
    round(&mut registry, "J1", Topic::DonePollen, "h1", &names);

    let outcome = registry.upsert(
        "J1".to_string(),
        Topic::ProcessingPollen,
        "h2".to_string(),
        Some(Model::VitB32),
        None,
    );
    assert_eq!(outcome, UpsertOutcome::RefreshedAfterApply);
    let key = "J1".to_string();
    let job = registry.get_pollen(&key).unwrap();
    assert_eq!(job.status, PollenStatus::OnceSetAsWallpaper);
    assert_eq!(job.hash_of_current_iteration, "h2");
    assert_eq!(job.model_type, Some(Model::VitB32));
    assert!(!registry.should_persist(&key));
}

#[test]
fn unknown_topics_are_dropped_without_registry_mutation() {
    let mut registry = Registry::new(false);
    let outcome = registry.upsert(
        "J1".to_string(),
        Topic::Unknown,
        "h1".to_string(),
        None,
        None,
    );
    assert_eq!(outcome, UpsertOutcome::IgnoredUnknownTopic);
    assert_eq!(registry.len(), 0);
}

#[test]
fn metadata_is_fetched_once_and_cached() {
    let mut registry = Registry::new(false);
    registry.upsert(
        "J1".to_string(),
        Topic::ProcessingPollen,
        "h1".to_string(),
        Some(Model::WikiArt),
        Some("first".to_string()),
    );
    registry.upsert(
        "J1".to_string(),
        Topic::ProcessingPollen,
        "h2".to_string(),
        Some(Model::VitB32),
        Some("second".to_string()),
    );
    let key = "J1".to_string();
    let job = registry.get_pollen(&key).unwrap();
    assert_eq!(job.model_type, Some(Model::WikiArt));
    assert_eq!(job.text_input, Some("first".to_string()));
    assert_eq!(job.hash_of_current_iteration, "h2");
}

#[test]
fn removal_concludes_a_lifecycle() {
    let mut registry = Registry::new(false);
    registry.upsert(
        "J1".to_string(),
        Topic::DonePollen,
        "h1".to_string(),
        None,
        None,
    );
    let key = "J1".to_string();
    assert!(registry.remove(&key));
    assert!(registry.get_pollen(&key).is_none());
    assert_eq!(registry.len(), 0);
    assert!(!registry.remove(&key));
}

#[test]
fn processing_count_follows_statuses() {
    let mut registry = Registry::new(false);
    let names = ["p_0001.jpg"];
    round(&mut registry, "J1", Topic::ProcessingPollen, "h1", &names);
    round(&mut registry, "J2", Topic::ProcessingPollen, "h2", &names);
    round(&mut registry, "J3", Topic::DonePollen, "h3", &names);
    assert_eq!(registry.processing_count(), 2);
    round(&mut registry, "J2", Topic::DonePollen, "h4", &names);
    assert_eq!(registry.processing_count(), 1);
}

#[test]
fn pollen_info_constructors_set_the_announced_fields() {
    let p = PollenInfo::new(
        "id-1".to_string(),
        Topic::ProcessingPollen,
        "h1".to_string(),
        Some(Model::WikiArt),
        Some("text".to_string()),
    );
    assert_eq!(p.id, "id-1");
    assert_eq!(p.topic, Topic::ProcessingPollen);
    assert_eq!(p.status, PollenStatus::Processing);
    assert!(p.last_polled_evolution.is_none());

    let q = PollenInfo::with_status(
        "id-2".to_string(),
        Topic::DonePollen,
        "h2".to_string(),
        None,
        None,
        PollenStatus::Done,
    );
    assert_eq!(q.status, PollenStatus::Done);

    let d = PollenInfo::default();
    assert_eq!(d.id, "");
    assert_eq!(d.topic, Topic::Unknown);
    assert_eq!(d.status, PollenStatus::Processing);
}
