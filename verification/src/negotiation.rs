//! What publishers and subscribers are asked to agree to.
use vstd::prelude::*;
use vstd::string::StringExecFns;

verus! {

/// How audio is coded. Opus is compatible with everything that clients use.
#[derive(Clone, Copy, Debug, PartialEq, Eq, Structural)]
pub enum AudioCodec {
    Opus,
}

/// How video is coded. H.264 is compatible with every current browser.
#[derive(Clone, Copy, Debug, PartialEq, Eq, Structural)]
pub enum VideoCodec {
    H264,
}

/// Which way media flows, seen from the server.
#[derive(Clone, Copy, Debug, PartialEq, Eq, Structural)]
pub enum Direction {
    RecvOnly,
    SendOnly,
}

/// How to answer a publisher's offer.
#[derive(Clone, Copy, Debug, PartialEq, Eq, Structural)]
pub struct AnswerParameters {
    pub audio_codec: AudioCodec,
    pub audio_direction: Direction,
    pub video_codec: VideoCodec,
    pub video_direction: Direction,
}

/// What to offer to a publisher's subscribers.
#[derive(Clone, Copy, Debug, PartialEq, Eq, Structural)]
pub struct OfferParameters {
    pub data: bool,
    pub audio: bool,
    pub audio_codec: AudioCodec,
    pub audio_payload_type: i32,
    pub audio_direction: Direction,
    pub video: bool,
    pub video_codec: VideoCodec,
    pub video_payload_type: i32,
    pub video_direction: Direction,
}

/// The payload type to offer for a stream that the publisher does not send.
pub const DEFAULT_PAYLOAD_TYPE: i32 = 100;

/// The payload type to offer, given the publisher's.
pub open spec fn offered_payload_type(published: Option<i32>) -> i32 {
    match published {
        Some(payload_type) => payload_type,
        None => DEFAULT_PAYLOAD_TYPE,
    }
}

/// How to answer a publisher's offer: the server receives, in the codecs that all clients know.
pub fn answer_parameters() -> (parameters: AnswerParameters)
    ensures
        parameters == (AnswerParameters {
            audio_codec: AudioCodec::Opus,
            audio_direction: Direction::RecvOnly,
            video_codec: VideoCodec::H264,
            video_direction: Direction::RecvOnly,
        }),
{
    AnswerParameters {
        audio_codec: AudioCodec::Opus,
        audio_direction: Direction::RecvOnly,
        video_codec: VideoCodec::H264,
        video_direction: Direction::RecvOnly,
    }
}

/// What to offer to subscribers, given the payload types that the publisher was answered with.
/// Both streams are offered, whether or not the publisher sends them now.
pub fn subscriber_offer_parameters(audio: Option<i32>, video: Option<i32>) -> (parameters:
    OfferParameters)
    ensures
        parameters == (OfferParameters {
            data: true,
            audio: true,
            audio_codec: AudioCodec::Opus,
            audio_payload_type: offered_payload_type(audio),
            audio_direction: Direction::SendOnly,
            video: true,
            video_codec: VideoCodec::H264,
            video_payload_type: offered_payload_type(video),
            video_direction: Direction::SendOnly,
        }),
{
    let audio_payload_type: i32 = match audio {
        Some(payload_type) => payload_type,
        None => DEFAULT_PAYLOAD_TYPE,
    };
    let video_payload_type: i32 = match video {
        Some(payload_type) => payload_type,
        None => DEFAULT_PAYLOAD_TYPE,
    };
    OfferParameters {
        data: true,
        audio: true,
        audio_codec: AudioCodec::Opus,
        audio_payload_type,
        audio_direction: Direction::SendOnly,
        video: true,
        video_codec: VideoCodec::H264,
        video_payload_type,
        video_direction: Direction::SendOnly,
    }
}

/// The character for a digit.
pub open spec fn digit(value: nat) -> char {
    ('0' as u32 + value) as char
}

/// A natural number in decimal.
pub open spec fn digits(value: nat) -> Seq<char>
    decreases value,
{
    if value < 10 {
        seq![digit(value)]
    } else {
        digits(value / 10).push(digit(value % 10))
    }
}

/// An integer in decimal.
pub open spec fn decimal(value: int) -> Seq<char> {
    if value < 0 {
        seq!['-'] + digits((-value) as nat)
    } else {
        digits(value as nat)
    }
}

/// One digit as a string.
fn write_digit(value: u32) -> (text: String)
    requires
        value < 10,
    ensures
        text@ == seq![digit(value as nat)],
{
    proof {
        reveal_strlit("0");
        reveal_strlit("1");
        reveal_strlit("2");
        reveal_strlit("3");
        reveal_strlit("4");
        reveal_strlit("5");
        reveal_strlit("6");
        reveal_strlit("7");
        reveal_strlit("8");
        reveal_strlit("9");
    }
    let literal: &str = match value {
        0 => "0",
        1 => "1",
        2 => "2",
        3 => "3",
        4 => "4",
        5 => "5",
        6 => "6",
        7 => "7",
        8 => "8",
        _ => "9",
    };
    assert(literal@ =~= seq![digit(value as nat)]);
    literal.to_owned()
}

/// A natural number as a decimal string.
fn write_digits(value: u32) -> (text: String)
    ensures
        text@ == digits(value as nat),
    decreases value,
{
    if value < 10 {
        write_digit(value)
    } else {
        let last: String = write_digit(value % 10);
        let text: String = write_digits(value / 10).concat(last.as_str());
        assert(text@ =~= digits(value as nat));
        text
    }
}

/// An integer as a decimal string.
fn write_decimal(value: i32) -> (text: String)
    ensures
        text@ == decimal(value as int),
{
    if value < 0 {
        proof {
            reveal_strlit("-");
        }
        let size: u32 = (-(value as i64)) as u32;
        let text: String = "-".to_owned().concat(write_digits(size).as_str());
        assert("-"@ =~= seq!['-']);
        text
    } else {
        write_digits(value as u32)
    }
}

/// An attribute for the media line that has a payload type.
#[derive(Debug, PartialEq, Eq)]
pub struct Attribute {
    pub payload_type: i32,
    pub name: String,
    pub contents: String,
}

/// The audio settings: one channel, and nothing sent while nobody speaks.
pub open spec fn audio_settings(payload_type: i32) -> Seq<char> {
    decimal(payload_type as int) + " stereo=0; sprop-stereo=0; usedtx=1;"@
}

/// The attribute that fixes the audio settings, in the answer and in the offer to subscribers;
/// `None` where there is no audio.
pub fn audio_attribute(audio: Option<i32>) -> (attribute: Option<Attribute>)
    ensures
        match audio {
            Some(payload_type) => attribute is Some && attribute->0.payload_type == payload_type
                && attribute->0.name@ == "fmtp"@ && attribute->0.contents@ == audio_settings(
                payload_type,
            ),
            None => attribute is None,
        },
{
    match audio {
        Some(payload_type) => Some(
            Attribute {
                payload_type,
                name: "fmtp".to_owned(),
                contents: write_decimal(payload_type).concat(
                    " stereo=0; sprop-stereo=0; usedtx=1;",
                ),
            },
        ),
        None => None,
    }
}

} // verus!
