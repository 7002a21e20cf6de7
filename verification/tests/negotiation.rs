use sfu::negotiation::{
    answer_parameters, audio_attribute, subscriber_offer_parameters, AudioCodec, Direction,
    VideoCodec,
};

#[test]
fn audio_settings_name_the_payload_type() {
    let attribute = audio_attribute(Some(111)).unwrap();
    assert_eq!(attribute.payload_type, 111);
    assert_eq!(attribute.name, "fmtp");
    assert_eq!(attribute.contents, "111 stereo=0; sprop-stereo=0; usedtx=1;");
}

#[test]
fn audio_settings_are_written_for_any_number() {
    for number in [0, 7, 9, 10, 99, 100, 1234567890, i32::MAX, -1, -10, i32::MIN] {
        let attribute = audio_attribute(Some(number)).unwrap();
        let expected = format!("{} stereo=0; sprop-stereo=0; usedtx=1;", number);
        assert_eq!(attribute.contents, expected);
    }
}

#[test]
fn no_audio_needs_no_settings() {
    assert!(audio_attribute(None).is_none());
}

#[test]
fn publishers_are_answered_in_known_codecs() {
    let parameters = answer_parameters();
    assert_eq!(parameters.audio_codec, AudioCodec::Opus);
    assert_eq!(parameters.video_codec, VideoCodec::H264);
    assert_eq!(parameters.audio_direction, Direction::RecvOnly);
    assert_eq!(parameters.video_direction, Direction::RecvOnly);
}

#[test]
fn subscribers_are_offered_what_was_published() {
    let parameters = subscriber_offer_parameters(Some(111), Some(107));
    assert!(parameters.data && parameters.audio && parameters.video);
    assert_eq!(parameters.audio_payload_type, 111);
    assert_eq!(parameters.video_payload_type, 107);
    assert_eq!(parameters.audio_direction, Direction::SendOnly);
    assert_eq!(parameters.video_direction, Direction::SendOnly);
}

#[test]
fn subscribers_are_offered_streams_that_are_not_sent_yet() {
    let parameters = subscriber_offer_parameters(None, None);
    assert!(parameters.data && parameters.audio && parameters.video);
    assert_eq!(parameters.audio_payload_type, 100);
    assert_eq!(parameters.video_payload_type, 100);
}
