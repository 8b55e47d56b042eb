use oxideav_pipeline::error::{ErrorKind, JobError};
use oxideav_pipeline::failure::Cause;
use oxideav_pipeline::media::{CodecParameters, MediaType};
use oxideav_pipeline::selection::{
    make_decoder, make_decoder_with, make_decoder_with_selection, make_encoder,
    make_encoder_with_selection, CodecCapabilities, CodecImplementation, CodecPreferences,
    CodecWalk,
};

fn caps(name: &str, hw: bool) -> CodecCapabilities {
    CodecCapabilities {
        implementation: name.to_string(),
        hardware_accelerated: hw,
        priority: 100,
        max_width: None,
        max_height: None,
        max_bitrate: None,
        max_sample_rate: None,
        max_channels: None,
    }
}

fn decoder(name: &str, hw: bool, priority: i32) -> CodecImplementation {
    let mut c = caps(name, hw);
    c.priority = priority;
    CodecImplementation {
        caps: c,
        has_decoder: true,
        has_encoder: false,
    }
}

fn video(codec: &str) -> CodecParameters {
    CodecParameters::new(codec.to_string(), MediaType::Video)
}

#[test]
fn no_hardware_excludes_hw_only() {
    let prefs = CodecPreferences {
        no_hardware: true,
        ..Default::default()
    };
    assert!(prefs.excludes(&caps("aac_audiotoolbox", true)));
    assert!(!prefs.excludes(&caps("aac_sw", false)));
}

#[test]
fn require_hardware_excludes_sw_only() {
    let prefs = CodecPreferences {
        require_hardware: true,
        ..Default::default()
    };
    assert!(!prefs.excludes(&caps("aac_audiotoolbox", true)));
    assert!(prefs.excludes(&caps("aac_sw", false)));
}

#[test]
fn no_hardware_and_require_hardware_excludes_everything() {
    let prefs = CodecPreferences {
        no_hardware: true,
        require_hardware: true,
        ..Default::default()
    };
    assert!(prefs.excludes(&caps("aac_audiotoolbox", true)));
    assert!(prefs.excludes(&caps("aac_sw", false)));
}

#[test]
fn selected_decoder_metadata_tracks_factory_that_actually_succeeds() {
    let candidates = vec![
        decoder("preferred_hw", true, 10),
        decoder("fallback_sw", false, 100),
    ];
    let params = video("selection_metadata_test");
    let mut walk: CodecWalk<&str> =
        match make_decoder_with_selection(&candidates, &params, &CodecPreferences::default()) {
            Ok(w) => w,
            Err(_) => panic!("two implementations are registered"),
        };
    // The preferred factory fails, the next one succeeds.
    assert_eq!(walk.candidate(), Some(0));
    walk.refused("preferred implementation unavailable");
    assert_eq!(walk.candidate(), Some(1));
    let selected = walk.selected(&candidates).unwrap();
    assert_eq!(selected.implementation, "fallback_sw");
    assert!(!selected.hardware_accelerated);
}

#[test]
fn last_refusal_is_surfaced() {
    let candidates = vec![decoder("b", false, 20), decoder("a", false, 10)];
    let mut walk: CodecWalk<&str> = make_decoder(&candidates, &video("c")).ok().unwrap();
    assert_eq!(walk.candidate(), Some(1));
    walk.refused("a failed");
    assert_eq!(walk.candidate(), Some(0));
    walk.refused("b failed");
    assert_eq!(walk.candidate(), None);
    assert!(walk.selected(&candidates).is_none());
    assert!(matches!(walk.give_up(), Cause::Raised("b failed")));
}

#[test]
fn equal_priorities_keep_registration_order() {
    let candidates = vec![
        decoder("x", false, 5),
        decoder("y", false, 5),
        decoder("z", false, 1),
    ];
    let prefs = CodecPreferences::default();
    assert_eq!(prefs.rank(&candidates, &video("c"), false), vec![2, 0, 1]);
}

#[test]
fn preferred_names_are_boosted_and_excluded_names_left_out() {
    let candidates = vec![
        decoder("x", false, 5),
        decoder("y", false, 50),
        decoder("z", false, 1),
    ];
    let prefs = CodecPreferences {
        prefer: vec!["y".to_string()],
        exclude: vec!["z".to_string()],
        boost: 100,
        ..Default::default()
    };
    assert_eq!(prefs.effective_priority(&candidates[1].caps), -50);
    assert_eq!(prefs.rank(&candidates, &video("c"), false), vec![1, 0]);
    // A negative boost is no boost.
    let prefs = CodecPreferences {
        prefer: vec!["y".to_string()],
        boost: -7,
        ..Default::default()
    };
    assert_eq!(prefs.effective_priority(&candidates[1].caps), 50);
}

#[test]
fn declared_limits_are_respected() {
    let mut small = decoder("small", false, 1);
    small.caps.max_width = Some(640);
    let candidates = vec![small, decoder("any", false, 9)];
    let prefs = CodecPreferences::default();
    let mut params = video("c");
    params.width = Some(1920);
    assert_eq!(prefs.rank(&candidates, &params, false), vec![1]);
    params.width = Some(640);
    assert_eq!(prefs.rank(&candidates, &params, false), vec![0, 1]);
    params.width = None;
    assert_eq!(prefs.rank(&candidates, &params, false), vec![0, 1]);
}

#[test]
fn missing_codecs_are_named() {
    let none: Vec<CodecImplementation> = Vec::new();
    let r: Result<CodecWalk<&str>, JobError> = make_encoder(&none, &video("vp9"));
    let e = r.err().unwrap();
    assert_eq!(e.kind(), ErrorKind::CodecNotFound);
    assert_eq!(e.message(), "vp9");

    // Registered, but nothing can encode.
    let candidates = vec![decoder("x", false, 5)];
    let prefs = CodecPreferences::default();
    let walk: CodecWalk<&str> = make_encoder_with_selection(&candidates, &video("vp9"), &prefs)
        .ok()
        .unwrap();
    assert_eq!(walk.candidate(), None);
    match walk.give_up() {
        Cause::Own(e) => assert_eq!(
            e.message(),
            "no encoder for vp9 accepts the requested parameters"
        ),
        Cause::Raised(_) => panic!("nothing was tried"),
    }

    let both = CodecPreferences {
        no_hardware: true,
        require_hardware: true,
        ..Default::default()
    };
    let walk: CodecWalk<&str> = make_decoder_with(&candidates, &video("vp9"), &both)
        .ok()
        .unwrap();
    match walk.give_up() {
        Cause::Own(e) => {
            assert_eq!(e.kind(), ErrorKind::CodecNotFound);
            assert_eq!(
                e.message(),
                "no decoder for vp9 accepts the requested parameters"
            );
        }
        Cause::Raised(_) => panic!("nothing was tried"),
    }
}
