use wikidump_extract::mixes::{GenreMix, GenreMixes};

#[test]
fn types_test_help() {
    assert_eq!(
        GenreMixes::parse("help: not ready"),
        GenreMixes::Help {
            help_reason: Some("not ready".to_string())
        }
    );
    assert_eq!(
        GenreMixes::parse("help"),
        GenreMixes::Help { help_reason: None }
    );
}

#[test]
fn output_test_help() {
    assert_eq!(
        GenreMixes::parse("help: not ready"),
        GenreMixes::Help {
            help_reason: Some("not ready".to_string())
        }
    );
}

#[test]
fn types_test_mixes() {
    assert_eq!(
        GenreMixes::parse(
            "https://www.youtube.com/playlist?list=PLMC9KNkIncKvYin_USF1qoJQnIyMAfRxl
                 https://www.youtube.com/playlist?list=PLH22-xSMERQrmeOAp7kJy-0BHfGJbl4Jg # A great mix
                 https://youtu.be/dQw4w9WgXcQ # You're on your own with finding a mix for this."
        ),
        GenreMixes::Mixes(vec![
            GenreMix::Playlist {
                playlist: "PLMC9KNkIncKvYin_USF1qoJQnIyMAfRxl".to_string(),
                note: None
            },
            GenreMix::Playlist {
                playlist: "PLH22-xSMERQrmeOAp7kJy-0BHfGJbl4Jg".to_string(),
                note: Some("A great mix".to_string())
            },
            GenreMix::Video {
                video: "dQw4w9WgXcQ".to_string(),
                note: Some("You're on your own with finding a mix for this.".to_string())
            }
        ])
    );
}

#[test]
fn output_test_mixes() {
    assert_eq!(
        GenreMixes::parse(
            "https://www.youtube.com/playlist?list=PLMC9KNkIncKvYin_USF1qoJQnIyMAfRxl
                 https://www.youtube.com/playlist?list=PLH22-xSMERQrmeOAp7kJy-0BHfGJbl4Jg # A great mix
                 https://youtu.be/dQw4w9WgXcQ # You're on your own with finding a mix for this."
        ),
        GenreMixes::Mixes(vec![
            GenreMix::Playlist {
                playlist: "PLMC9KNkIncKvYin_USF1qoJQnIyMAfRxl".to_string(),
                note: None
            },
            GenreMix::Playlist {
                playlist: "PLH22-xSMERQrmeOAp7kJy-0BHfGJbl4Jg".to_string(),
                note: Some("A great mix".to_string())
            },
            GenreMix::Video {
                video: "dQw4w9WgXcQ".to_string(),
                note: Some("You're on your own with finding a mix for this.".to_string())
            }
        ])
    );
}

#[test]
fn types_test_video_formats() {
    assert_eq!(
        GenreMixes::parse(
            "https://www.youtube.com/watch?v=dQw4w9WgXcQ
                 https://youtu.be/dQw4w9WgXcQ"
        ),
        GenreMixes::Mixes(vec![
            GenreMix::Video {
                video: "dQw4w9WgXcQ".to_string(),
                note: None
            },
            GenreMix::Video {
                video: "dQw4w9WgXcQ".to_string(),
                note: None
            }
        ])
    );
}

#[test]
fn output_test_video_formats() {
    assert_eq!(
        GenreMixes::parse(
            "https://www.youtube.com/watch?v=dQw4w9WgXcQ
                 https://youtu.be/dQw4w9WgXcQ"
        ),
        GenreMixes::Mixes(vec![
            GenreMix::Video {
                video: "dQw4w9WgXcQ".to_string(),
                note: None
            },
            GenreMix::Video {
                video: "dQw4w9WgXcQ".to_string(),
                note: None
            }
        ])
    );
}

#[test]
fn empty_input_yields_no_mixes() {
    assert_eq!(GenreMixes::parse(""), GenreMixes::Mixes(vec![]));
    assert_eq!(GenreMixes::parse("   \n  "), GenreMixes::Mixes(vec![]));
}

#[test]
fn unrecognized_lines_contribute_nothing() {
    assert_eq!(
        GenreMixes::parse("https://example.com/nothing-here\nplain words"),
        GenreMixes::Mixes(vec![])
    );
}

#[test]
fn playlist_id_stops_at_ampersand() {
    assert_eq!(
        GenreMixes::parse("https://www.youtube.com/playlist?list=ABC123&feature=share"),
        GenreMixes::Mixes(vec![GenreMix::Playlist {
            playlist: "ABC123".to_string(),
            note: None
        }])
    );
}
