use asterisk_apps::mp3::{AppMp3Player, Mp3Decoder, Mp3Options};
use asterisk_apps::DialplanApp;

#[test]
fn test_mp3_options_parse() {
    let opts = Mp3Options::parse("/path/to/file.mp3").unwrap();
    assert_eq!(opts.location, "/path/to/file.mp3");
    assert_eq!(opts.decoder, Mp3Decoder::Mpg123);
}

#[test]
fn test_mp3_options_parse_url() {
    let opts = Mp3Options::parse("http://example.com/stream.mp3").unwrap();
    assert_eq!(opts.location, "http://example.com/stream.mp3");
}

#[test]
fn test_mp3_options_parse_empty() {
    assert!(Mp3Options::parse("").is_err());
    assert!(Mp3Options::parse("   ").is_err());
}

#[test]
fn test_mp3_decoder_args() {
    assert_eq!(
        AppMp3Player::decoder_args(true, "a.mp3"),
        vec!["-q", "-s", "--mono", "-r", "8000", "a.mp3"]
    );
    assert_eq!(
        AppMp3Player::decoder_args(false, "a.mp3"),
        vec!["-i", "a.mp3", "-f", "s16le", "-ar", "8000", "-ac", "1", "pipe:1"]
    );
    assert_eq!(
        Mp3Options::parse("").unwrap_err(),
        "missing required argument: location (MP3 file, URL, or M3U playlist)"
    );
    assert_eq!(Mp3Options::parse("  x  ").unwrap().location, "x");
    assert_eq!(AppMp3Player.name(), "MP3Player");
}

#[test]
fn test_mp3_decoder_preference() {
    assert_eq!(
        AppMp3Player::decoder_preference(Mp3Decoder::Mpg123),
        (Mp3Decoder::Mpg123, Mp3Decoder::Ffmpeg)
    );
    assert_eq!(
        AppMp3Player::decoder_preference(Mp3Decoder::Ffmpeg),
        (Mp3Decoder::Ffmpeg, Mp3Decoder::Mpg123)
    );
}
