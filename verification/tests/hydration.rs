use camera_mgr::{hydrate, Camera, LoadNotice, LoadOutcome, Registry, Stream};

const BASE: &str = "http://localhost:8000";

fn cam(id: &str, name: &str) -> Camera {
    Camera {
        id: id.to_string(),
        name: name.to_string(),
        streams: vec![Stream {
            id: 1,
            source_url: format!("rtsp://{}", name),
            recast_url: Some(format!("http://h/{}", id)),
        }],
    }
}

#[test]
fn missing_file_hydrates_empty() {
    let (reg, notice) = hydrate(BASE.to_string(), LoadOutcome::Missing);
    assert_eq!(notice, Some(LoadNotice::NoPriorState));
    assert!(reg.list().is_empty());
    assert!(reg.list_basic().is_empty());
    assert_eq!(reg.base_url(), BASE);
}

#[test]
fn malformed_file_hydrates_empty_with_a_warning() {
    let (reg, notice) = hydrate(BASE.to_string(), LoadOutcome::Malformed);
    assert_eq!(notice, Some(LoadNotice::CorruptState));
    assert!(reg.is_empty());
}

#[test]
fn loaded_records_are_served() {
    let loaded = vec![cam("a", "one"), cam("b", "two")];
    let (reg, notice) = hydrate(BASE.to_string(), LoadOutcome::Loaded(loaded.clone()));
    assert_eq!(notice, None);
    assert_eq!(reg.list(), loaded);
    assert_eq!(reg.get("b"), Some(cam("b", "two")));
}

#[test]
fn of_two_loaded_records_with_one_id_the_later_stays() {
    let loaded = vec![cam("a", "one"), cam("b", "two"), cam("a", "three")];
    let reg = Registry::from_records(BASE.to_string(), loaded);
    assert_eq!(reg.len(), 2);
    assert_eq!(reg.list(), vec![cam("a", "three"), cam("b", "two")]);
    assert_eq!(reg.get("a"), Some(cam("a", "three")));
}

#[test]
fn listing_restores_the_registry() {
    let empty = Registry::new(BASE.to_string());
    assert!(Registry::from_records(BASE.to_string(), empty.list()).list().is_empty());

    let mut single = Registry::new(BASE.to_string());
    single.create(cam("", "one")).unwrap();
    assert_eq!(Registry::from_records(BASE.to_string(), single.list()).list(), single.list());

    let mut many = Registry::new(BASE.to_string());
    let multi = Camera {
        id: String::new(),
        name: "multi".to_string(),
        streams: vec![
            Stream { id: 1, source_url: "rtsp://1".to_string(), recast_url: None },
            Stream { id: 2, source_url: "rtsp://2".to_string(), recast_url: None },
            Stream { id: 3, source_url: "rtsp://3".to_string(), recast_url: Some("http://r/3".to_string()) },
        ],
    };
    many.create(multi).unwrap();
    many.create(cam("", "two")).unwrap();
    many.replace("fixed", cam("fixed", "three")).unwrap();
    let restored = Registry::from_records(BASE.to_string(), many.list());
    assert_eq!(restored.list(), many.list());
    for c in many.list() {
        assert_eq!(restored.get(&c.id), Some(c));
    }
}
