use hola::codec::{decode_models, encode_models};
use hola::config::{Config, Core, Video};
use hola::session::{enroll_tick, EnrollStep};
use hola::store::App;

fn test_config() -> Config {
    Config {
        core: Core {
            detection_notice: false,
            no_confirmation: false,
            suppress_unknown: false,
            suppress_timeout: false,
            ignore_ssh: false,
            ignore_closed_lid: false,
            disabled: false,
            use_cnn: false,
        },
        video: Video { certainty: 0.4f64.to_bits(), timeout: 5, device: 0, max_height: 320 },
    }
}

#[test]
fn empty_frame_retries_and_stores_nothing() {
    let mut a = App::new(test_config(), Vec::new());
    let r = enroll_tick(&mut a, Vec::new(), &String::from("me"), 50);
    assert_eq!(r, EnrollStep::Retry);
    assert!(a.models().is_empty());
}

#[test]
fn single_face_is_enrolled_with_label_and_time() {
    let mut a = App::new(test_config(), Vec::new());
    let r = enroll_tick(&mut a, vec![vec![1, 2, 3]], &String::from("me"), 50);
    assert_eq!(r, EnrollStep::Enrolled(0));
    let ms = a.models();
    assert_eq!(ms.len(), 1);
    assert_eq!(ms[0].data, vec![1, 2, 3]);
    assert_eq!(ms[0].label, "me");
    assert_eq!(ms[0].id, 0);
    assert_eq!(ms[0].time, 50);
}

#[test]
fn ambiguous_frame_stores_nothing() {
    // Two faces in the enrollment frame: the attempt fails distinctly and
    // the store, and hence what a save would persist, is untouched.
    let mut a = App::new(test_config(), Vec::new());
    a.push_model_at(vec![7], String::from("kept"), 1);
    let before = encode_models(&a.models());
    let r = enroll_tick(&mut a, vec![vec![1], vec![2]], &String::from("me"), 50);
    assert_eq!(r, EnrollStep::Ambiguous);
    let after = encode_models(&a.models());
    assert_eq!(after, before);
    assert_eq!(a.models().len(), 1);
}

#[test]
fn enrolled_store_survives_a_save_and_load() {
    let mut a = App::new(test_config(), Vec::new());
    enroll_tick(&mut a, vec![vec![10, 20]], &String::from("first"), 100);
    enroll_tick(&mut a, vec![vec![30]], &String::from("second"), 200);
    let saved = encode_models(&a.models());
    let loaded = decode_models(&saved).expect("saved store must load");
    assert_eq!(loaded, a.models());
}
