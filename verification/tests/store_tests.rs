use hola::config::{Config, Core, Video};
use hola::store::App;

fn test_config() -> Config {
    Config {
        core: Core {
            detection_notice: false,
            no_confirmation: false,
            suppress_unknown: false,
            suppress_timeout: false,
            ignore_ssh: false,
            ignore_closed_lid: false,
            disabled: false,
            use_cnn: false,
        },
        video: Video { certainty: 0.4f64.to_bits(), timeout: 5, device: 0, max_height: 320 },
    }
}

#[test]
fn id_assignment_in_sequence() {
    let mut a = App::new(test_config(), Vec::new());
    a.push_model_at(vec![1, 2, 3], String::from("one"), 100);
    a.push_model_at(vec![4, 5, 6], String::from("two"), 200);
    a.push_model_at(vec![7, 8, 9], String::from("three"), 300);
    let ms = a.models();
    assert_eq!(ms.len(), 3);
    for (i, m) in ms.iter().enumerate() {
        assert_eq!(m.id, i);
    }
    assert_eq!(ms[0].label, "one");
    assert_eq!(ms[2].time, 300);
}

#[test]
fn push_model_stamps_clock_time() {
    let mut a = App::new(test_config(), Vec::new());
    a.push_model(vec![9], String::from("clocked"));
    let ms = a.models();
    assert_eq!(ms.len(), 1);
    assert_eq!(ms[0].id, 0);
    assert_eq!(ms[0].label, "clocked");
    assert_eq!(ms[0].data, vec![9]);
}

#[test]
fn removal_does_not_renumber() {
    let mut a = App::new(test_config(), Vec::new());
    a.push_model_at(vec![1], String::from("a"), 1);
    a.push_model_at(vec![2], String::from("b"), 2);
    a.push_model_at(vec![3], String::from("c"), 3);
    assert!(a.remove_by_id(1));
    let ms = a.models();
    assert_eq!(ms.len(), 2);
    assert_eq!(ms[0].id, 0);
    assert_eq!(ms[1].id, 2);
    // Enrolling again assigns the current length as the id, which here
    // collides with a surviving id.
    a.push_model_at(vec![4], String::from("d"), 4);
    let ms = a.models();
    assert_eq!(ms[2].id, 2);
    assert_eq!(ms[1].id, 2);
}

#[test]
fn remove_by_id_of_absent_id_changes_nothing() {
    let mut a = App::new(test_config(), Vec::new());
    a.push_model_at(vec![1], String::from("a"), 1);
    assert!(!a.remove_by_id(7));
    assert_eq!(a.models().len(), 1);
}

#[test]
fn find_model_returns_first_position() {
    let mut a = App::new(test_config(), Vec::new());
    a.push_model_at(vec![1], String::from("a"), 1);
    a.push_model_at(vec![2], String::from("b"), 2);
    assert_eq!(a.find_model(1), Some(1));
    assert_eq!(a.find_model(0), Some(0));
    assert_eq!(a.find_model(9), None);
}

#[test]
fn clear_models_empties_the_store() {
    let mut a = App::new(test_config(), Vec::new());
    a.push_model_at(vec![1], String::from("a"), 1);
    a.push_model_at(vec![2], String::from("b"), 2);
    a.clear_models();
    assert!(a.models().is_empty());
    // The next enrollment starts over at id 0.
    a.push_model_at(vec![3], String::from("c"), 3);
    assert_eq!(a.models()[0].id, 0);
}

#[test]
fn models_returns_an_identical_copy() {
    let mut a = App::new(test_config(), Vec::new());
    a.push_model_at(vec![1, 2], String::from("käse"), -5);
    let ms = a.models();
    assert_eq!(ms[0].data, vec![1, 2]);
    assert_eq!(ms[0].label, "käse");
    assert_eq!(ms[0].time, -5);
}
